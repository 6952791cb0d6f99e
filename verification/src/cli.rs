//! How the command-line client reads a line typed by its user and what it
//! reports back.
//!
//! A line is cut at whitespace.  Its first piece names the request: `INS`
//! or `UPD` followed by documents (the remaining pieces, joined together),
//! `DEL` followed by document ids, `PING` with no argument, or `EXIT`.  Anything else is refused with a message.
use vstd::prelude::*;
use crate::client::{VDBDeleteResponse, VDBInsertResponse, VDBUpdateResponse};
use crate::words::{
    is_white_space, lemma_split_single_piece, split_whitespace, texts, whitespace_split,
};

verus! {

/// What a line asks the client to do.
pub enum CliAction {
    /// Nothing; the prompt is shown again.
    Nothing,
    /// Insert the documents written in this JSON text.
    Insert(Seq<char>),
    /// Update the documents written in this JSON text.
    Update(Seq<char>),
    /// Delete the documents with these ids.
    Delete(Seq<Seq<char>>),
    /// Ping the server.
    Ping,
    /// Leave.
    Exit,
    /// Report this message and do nothing else.
    Reject(Seq<char>),
}

/// The executable counterpart of [`CliAction`].
#[derive(Clone, Debug, PartialEq, Eq)]
pub enum CliRequest {
    Nothing,
    Insert(String),
    Update(String),
    Delete(Vec<String>),
    Ping,
    Exit,
    Reject(String),
}

impl View for CliRequest {
    type V = CliAction;

    open spec fn view(&self) -> CliAction {
        match self {
            CliRequest::Nothing => CliAction::Nothing,
            CliRequest::Insert(docs) => CliAction::Insert(docs@),
            CliRequest::Update(docs) => CliAction::Update(docs@),
            CliRequest::Delete(ids) => CliAction::Delete(texts(ids@)),
            CliRequest::Ping => CliAction::Ping,
            CliRequest::Exit => CliAction::Exit,
            CliRequest::Reject(m) => CliAction::Reject(m@),
        }
    }
}

/// The pieces joined one after the other, with nothing between them.
pub open spec fn concat_pieces(pieces: Seq<Seq<char>>) -> Seq<char>
    decreases pieces.len(),
{
    if pieces.len() == 0 {
        Seq::empty()
    } else {
        concat_pieces(pieces.drop_last()) + pieces.last()
    }
}

/// What a line cut into `pieces` asks for.
pub open spec fn interpret_pieces(pieces: Seq<Seq<char>>) -> CliAction {
    if pieces.len() == 0 {
        CliAction::Nothing
    } else if pieces[0] == "INS"@ {
        let documents = concat_pieces(pieces.drop_first());
        if documents.len() == 0 {
            CliAction::Reject("Wrong number of arguments, expected DOCUMENTS."@)
        } else {
            CliAction::Insert(documents)
        }
    } else if pieces[0] == "UPD"@ {
        let documents = concat_pieces(pieces.drop_first());
        if documents.len() == 0 {
            CliAction::Reject("Wrong number of arguments, expected DOCUMENTS."@)
        } else {
            CliAction::Update(documents)
        }
    } else if pieces[0] == "DEL"@ {
        if pieces.len() == 1 {
            CliAction::Reject("Wrong number of arguments, expected IDS."@)
        } else {
            CliAction::Delete(pieces.drop_first())
        }
    } else if pieces[0] == "PING"@ {
        if pieces.len() > 1 {
            CliAction::Reject("Expected no arguments, got: "@ + pieces[1])
        } else {
            CliAction::Ping
        }
    } else if pieces[0] == "EXIT"@ {
        CliAction::Exit
    } else if pieces[0] == ""@ {
        CliAction::Nothing
    } else {
        CliAction::Reject("Unknown command: "@ + pieces[0])
    }
}

/// Joins the pieces from index 1 on.
fn join_arguments(pieces: &Vec<String>) -> (joined: String)
    requires
        pieces@.len() >= 1,
    ensures
        joined@ == concat_pieces(texts(pieces@).drop_first()),
{
    let ghost t = texts(pieces@);
    let mut joined = String::new();
    let mut i: usize = 1;
    assert(t.subrange(1, 1) =~= Seq::<Seq<char>>::empty());
    while i < pieces.len()
        invariant
            1 <= i <= pieces@.len(),
            t == texts(pieces@),
            joined@ == concat_pieces(t.subrange(1, i as int)),
        decreases pieces@.len() - i,
    {
        joined.append(pieces[i].as_str());
        assert(t.subrange(1, i + 1).drop_last() =~= t.subrange(1, i as int));
        i = i + 1;
    }
    assert(t.subrange(1, i as int) =~= t.drop_first());
    joined
}

/// The pieces from index 1 on.
fn arguments(pieces: &Vec<String>) -> (args: Vec<String>)
    requires
        pieces@.len() >= 1,
    ensures
        texts(args@) == texts(pieces@).drop_first(),
{
    let ghost t = texts(pieces@);
    let mut args: Vec<String> = Vec::new();
    let mut i: usize = 1;
    while i < pieces.len()
        invariant
            1 <= i <= pieces@.len(),
            t == texts(pieces@),
            texts(args@) =~= t.subrange(1, i as int),
        decreases pieces@.len() - i,
    {
        let piece = pieces[i].clone();
        let ghost before = args@;
        args.push(piece);
        assert(texts(args@) =~= texts(before).push(t[i as int]));
        assert(t.subrange(1, i + 1) =~= t.subrange(1, i as int).push(t[i as int]));
        i = i + 1;
    }
    args
}

/// What a line already cut at whitespace asks for.
pub fn interpret_line_pieces(pieces: &Vec<String>) -> (r: CliRequest)
    ensures
        r@ == interpret_pieces(texts(pieces@)),
{
    let ghost t = texts(pieces@);
    if pieces.len() == 0 {
        return CliRequest::Nothing;
    }
    let first = &pieces[0];
    assert(first@ == t[0]);
    let r = if *first == String::from_str("INS") {
        let documents = join_arguments(pieces);
        if documents.as_str().is_empty() {
            CliRequest::Reject(String::from_str("Wrong number of arguments, expected DOCUMENTS."))
        } else {
            CliRequest::Insert(documents)
        }
    } else if *first == String::from_str("UPD") {
        let documents = join_arguments(pieces);
        if documents.as_str().is_empty() {
            CliRequest::Reject(String::from_str("Wrong number of arguments, expected DOCUMENTS."))
        } else {
            CliRequest::Update(documents)
        }
    } else if *first == String::from_str("DEL") {
        if pieces.len() == 1 {
            CliRequest::Reject(String::from_str("Wrong number of arguments, expected IDS."))
        } else {
            CliRequest::Delete(arguments(pieces))
        }
    } else if *first == String::from_str("PING") {
        if pieces.len() > 1 {
            let mut message = String::from_str("Expected no arguments, got: ");
            message.append(pieces[1].as_str());
            assert(pieces[1]@ == t[1]);
            CliRequest::Reject(message)
        } else {
            CliRequest::Ping
        }
    } else if *first == String::from_str("EXIT") {
        CliRequest::Exit
    } else if first.as_str().is_empty() {
        proof {
            reveal_strlit("");
            assert(t[0] =~= ""@);
        }
        CliRequest::Nothing
    } else {
        proof {
            reveal_strlit("");
            assert(t[0] != ""@);
        }
        let mut message = String::from_str("Unknown command: ");
        message.append(first.as_str());
        CliRequest::Reject(message)
    };
    r
}

/// What a line typed by the user asks for.
pub fn parse_cli_line(line: &str) -> (r: CliRequest)
    ensures
        r@ == interpret_pieces(whitespace_split(line@)),
{
    let pieces = split_whitespace(line);
    interpret_line_pieces(&pieces)
}

/// The character of a decimal digit.
pub open spec fn digit_char(d: nat) -> char {
    (48 + d) as char
}

/// The decimal writing of `n`, without leading zeros.
pub open spec fn decimal(n: nat) -> Seq<char>
    decreases n,
{
    if n < 10 {
        seq![digit_char(n)]
    } else {
        decimal(n / 10) + seq![digit_char(n % 10)]
    }
}

/// The text of one decimal digit.
fn digit_text(d: usize) -> (s: &'static str)
    requires
        d < 10,
    ensures
        s@ == seq![digit_char(d as nat)],
{
    if d == 0 {
        proof { reveal_strlit("0"); }
        "0"
    } else if d == 1 {
        proof { reveal_strlit("1"); }
        "1"
    } else if d == 2 {
        proof { reveal_strlit("2"); }
        "2"
    } else if d == 3 {
        proof { reveal_strlit("3"); }
        "3"
    } else if d == 4 {
        proof { reveal_strlit("4"); }
        "4"
    } else if d == 5 {
        proof { reveal_strlit("5"); }
        "5"
    } else if d == 6 {
        proof { reveal_strlit("6"); }
        "6"
    } else if d == 7 {
        proof { reveal_strlit("7"); }
        "7"
    } else if d == 8 {
        proof { reveal_strlit("8"); }
        "8"
    } else {
        proof { reveal_strlit("9"); }
        "9"
    }
}

/// Appends the decimal writing of `n` to `s`.
fn append_decimal(s: &mut String, n: usize)
    ensures
        final(s)@ == old(s)@ + decimal(n as nat),
    decreases n,
{
    if n >= 10 {
        append_decimal(s, n / 10);
    }
    s.append(digit_text(n % 10));
    assert(s@ =~= old(s)@ + decimal(n as nat));
}

/// What the client reports after a request on `count` documents: the count
/// and what was `done` to them on success, the error's text after `failed`
/// otherwise.
pub open spec fn documents_report_text(
    count: nat,
    response: (bool, Option<Seq<char>>),
    done: Seq<char>,
    failed: Seq<char>,
) -> Seq<char> {
    if response.0 {
        decimal(count) + done
    } else {
        failed + match response.1 {
            Some(e) => e,
            None => Seq::empty(),
        }
    }
}

fn documents_report(
    count: usize,
    success: bool,
    error: &Option<String>,
    done: &str,
    failed: &str,
) -> (s: String)
    ensures
        s@ == documents_report_text(
            count as nat,
            (
                success,
                match error {
                    Some(e) => Some(e@),
                    None => None,
                },
            ),
            done@,
            failed@,
        ),
{
    if success {
        let mut s = String::new();
        append_decimal(&mut s, count);
        s.append(done);
        s
    } else {
        let mut s = String::from_str(failed);
        match error {
            Some(e) => s.append(e.as_str()),
            None => {},
        }
        s
    }
}

/// What the client reports after inserting `count` documents with the given result.
pub fn insert_report(count: usize, response: &VDBInsertResponse) -> (s: String)
    ensures
        s@ == documents_report_text(
            count as nat,
            response@,
            " documents inserted."@,
            "Failed to insert documents: "@,
        ),
{
    documents_report(
        count,
        response.success,
        &response.error,
        " documents inserted.",
        "Failed to insert documents: ",
    )
}

/// What the client reports after updating `count` documents with the given result.
pub fn update_report(count: usize, response: &VDBUpdateResponse) -> (s: String)
    ensures
        s@ == documents_report_text(
            count as nat,
            response@,
            " documents updated."@,
            "Failed to update documents: "@,
        ),
{
    documents_report(
        count,
        response.success,
        &response.error,
        " documents updated.",
        "Failed to update documents: ",
    )
}

/// What the client reports after deleting `count` documents with the given result.
pub fn delete_report(count: usize, response: &VDBDeleteResponse) -> (s: String)
    ensures
        s@ == documents_report_text(
            count as nat,
            response@,
            " documents deleted."@,
            "Failed to delete documents: "@,
        ),
{
    documents_report(
        count,
        response.success,
        &response.error,
        " documents deleted.",
        "Failed to delete documents: ",
    )
}

/// Law: a line that is a single word, without white space, reads as that one piece.
pub proof fn lemma_single_word_line(word: Seq<char>)
    requires
        word.len() > 0,
        forall|i: int| 0 <= i < word.len() ==> !is_white_space(#[trigger] word[i]),
    ensures
        whitespace_split(word) == seq![word],
{
    lemma_split_single_piece(word, Seq::empty());
    assert(Seq::<char>::empty() + word =~= word);
}

/// Law: the line "PING" asks for a ping and the line "EXIT" for leaving.
pub proof fn lemma_ping_and_exit_lines()
    ensures
        interpret_pieces(whitespace_split("PING"@)) == CliAction::Ping,
        interpret_pieces(whitespace_split("EXIT"@)) == CliAction::Exit,
{
    reveal_strlit("PING");
    reveal_strlit("EXIT");
    reveal_strlit("INS");
    reveal_strlit("UPD");
    reveal_strlit("DEL");
    let ping = "PING"@;
    let exit = "EXIT"@;
    assert forall|i: int| 0 <= i < ping.len() implies !is_white_space(#[trigger] ping[i]) by {}
    assert forall|i: int| 0 <= i < exit.len() implies !is_white_space(#[trigger] exit[i]) by {}
    lemma_single_word_line(ping);
    lemma_single_word_line(exit);
}

/// The number that a sequence of decimal digit characters denotes, read from
/// left to right.
pub open spec fn digits_value(s: Seq<char>) -> int
    decreases s.len(),
{
    if s.len() == 0 {
        0
    } else {
        10 * digits_value(s.drop_last()) + (s.last() as int - 48)
    }
}

/// Whether `c` is one of the characters '0' to '9'.
pub open spec fn is_digit(c: char) -> bool {
    48 <= c as int <= 57
}

/// Law: `decimal(n)` is the base-10 writing of `n`: a non-empty run of
/// digits that denotes `n`, with no leading zero unless `n` is 0.
pub proof fn lemma_decimal_writes_the_number(n: nat)
    ensures
        decimal(n).len() > 0,
        forall|i: int| 0 <= i < decimal(n).len() ==> is_digit(#[trigger] decimal(n)[i]),
        digits_value(decimal(n)) == n,
        n > 0 ==> decimal(n)[0] != '0',
        n == 0 ==> decimal(n) == seq!['0'],
    decreases n,
{
    if n < 10 {
        assert(digits_value(decimal(n)) == digits_value(decimal(n).drop_last()) * 10 + (decimal(
            n,
        ).last() as int - 48));
        assert(decimal(n).drop_last() =~= Seq::<char>::empty());
    } else {
        lemma_decimal_writes_the_number(n / 10);
        let d = decimal(n);
        assert(d.drop_last() =~= decimal(n / 10));
        assert(d[0] == decimal(n / 10)[0]);
        assert forall|i: int| 0 <= i < d.len() implies is_digit(#[trigger] d[i]) by {
            if i < d.len() - 1 {
                assert(d[i] == decimal(n / 10)[i]);
            }
        }
    }
}

/// Law: joining pieces keeps every character of every piece, in order: no
/// pieces join to nothing, one piece to itself, and two runs of pieces join
/// to the join of the first followed by the join of the second.
pub proof fn lemma_concat_pieces(a: Seq<Seq<char>>, b: Seq<Seq<char>>, x: Seq<char>)
    ensures
        concat_pieces(Seq::empty()) == Seq::<char>::empty(),
        concat_pieces(seq![x]) == x,
        concat_pieces(a + b) == concat_pieces(a) + concat_pieces(b),
    decreases b.len(),
{
    assert(seq![x].drop_last() =~= Seq::<Seq<char>>::empty());
    assert(Seq::<char>::empty() + x =~= x);
    if b.len() == 0 {
        assert(a + b =~= a);
        assert(concat_pieces(a) + Seq::<char>::empty() =~= concat_pieces(a));
    } else {
        lemma_concat_pieces(a, b.drop_last(), x);
        assert((a + b).drop_last() =~= a + b.drop_last());
        assert((a + b).last() == b.last());
        assert(concat_pieces(a) + concat_pieces(b.drop_last()) + b.last() =~= concat_pieces(a) + (
        concat_pieces(b.drop_last()) + b.last()));
    }
}

/// Law: what the first word of a line asks for.  `INS` and `UPD` take the
/// rest of the line's words joined together as documents, and are refused
/// when there is nothing to join; `DEL` takes the rest of the words as ids,
/// and is refused without any; `PING` takes no argument and names the first
/// one it is given when refusing; `EXIT` ignores what follows; any other
/// non-empty first word is refused as an unknown command.
pub proof fn lemma_cli_words(first: Seq<char>, rest: Seq<Seq<char>>)
    ensures
        interpret_pieces(Seq::empty()) == CliAction::Nothing,
        first == "INS"@ ==> interpret_pieces(seq![first] + rest) == if concat_pieces(rest).len()
            == 0 {
            CliAction::Reject("Wrong number of arguments, expected DOCUMENTS."@)
        } else {
            CliAction::Insert(concat_pieces(rest))
        },
        first == "UPD"@ ==> interpret_pieces(seq![first] + rest) == if concat_pieces(rest).len()
            == 0 {
            CliAction::Reject("Wrong number of arguments, expected DOCUMENTS."@)
        } else {
            CliAction::Update(concat_pieces(rest))
        },
        first == "DEL"@ ==> interpret_pieces(seq![first] + rest) == if rest.len() == 0 {
            CliAction::Reject("Wrong number of arguments, expected IDS."@)
        } else {
            CliAction::Delete(rest)
        },
        first == "PING"@ ==> interpret_pieces(seq![first] + rest) == if rest.len() == 0 {
            CliAction::Ping
        } else {
            CliAction::Reject("Expected no arguments, got: "@ + rest[0])
        },
        first == "EXIT"@ ==> interpret_pieces(seq![first] + rest) == CliAction::Exit,
        first.len() > 0 && first != "INS"@ && first != "UPD"@ && first != "DEL"@ && first
            != "PING"@ && first != "EXIT"@ ==> interpret_pieces(seq![first] + rest)
            == CliAction::Reject("Unknown command: "@ + first),
{
    reveal_strlit("");
    reveal_strlit("INS");
    reveal_strlit("UPD");
    reveal_strlit("DEL");
    reveal_strlit("PING");
    reveal_strlit("EXIT");
    assert("UPD"@[0] != "INS"@[0]);
    assert("DEL"@[0] != "INS"@[0] && "DEL"@[0] != "UPD"@[0]);
    assert("PING"@[0] != "INS"@[0] && "PING"@[0] != "UPD"@[0] && "PING"@[0] != "DEL"@[0]);
    assert("EXIT"@[0] != "INS"@[0] && "EXIT"@[0] != "UPD"@[0] && "EXIT"@[0] != "DEL"@[0]
        && "EXIT"@[0] != "PING"@[0]);
    let p = seq![first] + rest;
    assert(p[0] == first);
    assert(p.drop_first() =~= rest);
    if p.len() > 1 {
        assert(p[1] == rest[0]);
    }
    if first.len() > 0 {
        assert(first != ""@);
    }
}

} // verus!
