//! Cutting a line into its words, as `str::split_whitespace` does: the words
//! are the maximal runs of characters without the Unicode White_Space property.
use vstd::prelude::*;

verus! {

/// Whether `c` has the Unicode property White_Space, by which
/// `str::split_whitespace` cuts a line.
pub open spec fn is_white_space(c: char) -> bool {
    let u = c as u32;
    ||| 0x09 <= u <= 0x0D
    ||| u == 0x20
    ||| u == 0x85
    ||| u == 0xA0
    ||| u == 0x1680
    ||| 0x2000 <= u <= 0x200A
    ||| u == 0x2028
    ||| u == 0x2029
    ||| u == 0x202F
    ||| u == 0x205F
    ||| u == 0x3000
}

/// The pieces of `current` followed by `rest`, where `current` holds no
/// white space: the maximal runs of characters that are not white space, in order.
pub open spec fn split_pieces(rest: Seq<char>, current: Seq<char>) -> Seq<Seq<char>>
    decreases rest.len(),
{
    if rest.len() == 0 {
        if current.len() == 0 {
            Seq::empty()
        } else {
            seq![current]
        }
    } else if is_white_space(rest[0]) {
        (if current.len() == 0 {
            Seq::empty()
        } else {
            seq![current]
        }) + split_pieces(rest.drop_first(), Seq::empty())
    } else {
        split_pieces(rest.drop_first(), current.push(rest[0]))
    }
}

/// The pieces `str::split_whitespace` cuts `line` into: its maximal runs of
/// characters that are not white space, in order.
pub open spec fn whitespace_split(line: Seq<char>) -> Seq<Seq<char>> {
    split_pieces(line, Seq::empty())
}

/// The texts of a list of owned strings.
pub open spec fn texts(v: Seq<String>) -> Seq<Seq<char>> {
    v.map_values(|p: String| p@)
}

/// Whether `c` is white space.
pub fn is_white_space_char(c: char) -> (b: bool)
    ensures
        b == is_white_space(c),
{
    let u = c as u32;
    (0x09 <= u && u <= 0x0D) || u == 0x20 || u == 0x85 || u == 0xA0 || u == 0x1680 || (0x2000
        <= u && u <= 0x200A) || u == 0x2028 || u == 0x2029 || u == 0x202F || u == 0x205F || u
        == 0x3000
}

/// The words of `line`, in order.
pub fn split_whitespace(line: &str) -> (pieces: Vec<String>)
    ensures
        texts(pieces@) == whitespace_split(line@),
{
    let ghost s = line@;
    let n = line.unicode_len();
    let mut pieces: Vec<String> = Vec::new();
    let mut start: usize = 0;
    let mut i: usize = 0;
    assert(s.subrange(0, n as int) =~= s);
    assert(s.subrange(0, 0) =~= Seq::<char>::empty());
    assert(texts(pieces@) =~= Seq::<Seq<char>>::empty());
    while i < n
        invariant
            n == s.len(),
            s == line@,
            start <= i <= n,
            texts(pieces@) + split_pieces(
                s.subrange(i as int, n as int),
                s.subrange(start as int, i as int),
            ) == whitespace_split(s),
        decreases n - i,
    {
        let c = line.get_char(i);
        let ghost rest = s.subrange(i as int, n as int);
        let ghost current = s.subrange(start as int, i as int);
        assert(rest[0] == c);
        assert(rest.drop_first() =~= s.subrange(i + 1, n as int));
        if is_white_space_char(c) {
            if start < i {
                let piece = line.substring_char(start, i).to_owned();
                let ghost before = pieces@;
                pieces.push(piece);
                assert(texts(pieces@) =~= texts(before).push(current));
                assert(texts(before) + (seq![current] + split_pieces(
                    rest.drop_first(),
                    Seq::empty(),
                )) =~= texts(pieces@) + split_pieces(rest.drop_first(), Seq::empty()));
            } else {
                assert(current =~= Seq::<char>::empty());
                assert(Seq::<Seq<char>>::empty() + split_pieces(rest.drop_first(), Seq::empty())
                    =~= split_pieces(rest.drop_first(), Seq::empty()));
            }
            start = i + 1;
            assert(s.subrange(start as int, i + 1) =~= Seq::<char>::empty());
        } else {
            assert(current.push(c) =~= s.subrange(start as int, i + 1));
        }
        i = i + 1;
    }
    let ghost current = s.subrange(start as int, n as int);
    assert(s.subrange(n as int, n as int) =~= Seq::<char>::empty());
    if start < n {
        let piece = line.substring_char(start, n).to_owned();
        let ghost before = pieces@;
        pieces.push(piece);
        assert(texts(pieces@) =~= texts(before).push(current));
        assert(texts(before) + seq![current] =~= texts(pieces@));
    } else {
        assert(texts(pieces@) + Seq::<Seq<char>>::empty() =~= texts(pieces@));
    }
    pieces
}

/// A run of characters without white space, after a piece begun in
/// `current`, makes a single piece.
pub proof fn lemma_split_single_piece(rest: Seq<char>, current: Seq<char>)
    requires
        forall|i: int| 0 <= i < rest.len() ==> !is_white_space(#[trigger] rest[i]),
        current.len() + rest.len() > 0,
    ensures
        split_pieces(rest, current) == seq![current + rest],
    decreases rest.len(),
{
    if rest.len() == 0 {
        assert(current + rest =~= current);
    } else {
        assert(!is_white_space(rest[0]));
        let tail = rest.drop_first();
        assert forall|i: int| 0 <= i < tail.len() implies !is_white_space(#[trigger] tail[i]) by {
            assert(tail[i] == rest[i + 1]);
        }
        lemma_split_single_piece(tail, current.push(rest[0]));
        assert(current.push(rest[0]) + tail =~= current + rest);
    }
}

/// Law: the printable ASCII characters other than the space ('!' to '~',
/// letters, digits and signs such as '-' among them) are never white space,
/// while the space, tab, line feed, vertical tab, form feed and carriage
/// return are.
pub proof fn lemma_ascii_white_space(c: char)
    ensures
        0x21 <= c as u32 <= 0x7E ==> !is_white_space(c),
        (c == ' ' || c == '\t' || c == '\n' || c == '\r' || c as u32 == 0x0B || c as u32 == 0x0C)
            ==> is_white_space(c),
        c as u32 == 0x7F || c as u32 == 0x00 || c as u32 == 0x08 || c as u32 == 0x1F
            ==> !is_white_space(c),
{
}

/// Law: beyond ASCII, white space is the next line (U+0085), the no-break
/// spaces (U+00A0, U+202F), the Ogham space mark (U+1680), the spaces U+2000
/// to U+200A, the line and paragraph separators (U+2028, U+2029), the
/// medium mathematical space (U+205F) and the ideographic space (U+3000);
/// the zero-width space (U+200B), the Mongolian vowel separator (U+180E),
/// the zero-width no-break space (U+FEFF) and everything above U+3000 are not.
pub proof fn lemma_unicode_white_space(c: char)
    ensures
        (c as u32 == 0x85 || c as u32 == 0xA0 || c as u32 == 0x1680 || (0x2000 <= c as u32
            <= 0x200A) || c as u32 == 0x2028 || c as u32 == 0x2029 || c as u32 == 0x202F || c as u32
            == 0x205F || c as u32 == 0x3000) ==> is_white_space(c),
        (c as u32 == 0x200B || c as u32 == 0x180E || c as u32 == 0xFEFF || c as u32 > 0x3000)
            ==> !is_white_space(c),
{
}

/// Law: a word made only of printable ASCII characters other than the space
/// is read as that one word.
pub proof fn lemma_printable_word(word: Seq<char>)
    requires
        word.len() > 0,
        forall|i: int| 0 <= i < word.len() ==> 0x21 <= (#[trigger] word[i]) as u32 <= 0x7E,
    ensures
        whitespace_split(word) == seq![word],
{
    assert forall|i: int| 0 <= i < word.len() implies !is_white_space(#[trigger] word[i]) by {
        lemma_ascii_white_space(word[i]);
    }
    lemma_split_single_piece(word, Seq::empty());
    assert(Seq::<char>::empty() + word =~= word);
}

/// Cutting `a`, a white-space character and `b`, after a piece begun in
/// `current`, gives the pieces of `a` after that beginning, then those of `b`.
proof fn lemma_split_pieces_at_space(a: Seq<char>, c: char, b: Seq<char>, current: Seq<char>)
    requires
        is_white_space(c),
    ensures
        split_pieces(a + seq![c] + b, current) == split_pieces(a, current) + split_pieces(
            b,
            Seq::empty(),
        ),
    decreases a.len(),
{
    let s = a + seq![c] + b;
    if a.len() == 0 {
        assert(s[0] == c);
        assert(s.drop_first() =~= b);
    } else {
        assert(s[0] == a[0]);
        assert(s.drop_first() =~= a.drop_first() + seq![c] + b);
        if is_white_space(a[0]) {
            lemma_split_pieces_at_space(a.drop_first(), c, b, Seq::empty());
        } else {
            lemma_split_pieces_at_space(a.drop_first(), c, b, current.push(a[0]));
        }
    }
}

/// Law: a line cut at one of its white-space characters gives the words
/// before it followed by the words after it; so words never run across white
/// space, and white space at either end adds no word.
pub proof fn lemma_split_at_white_space(a: Seq<char>, c: char, b: Seq<char>)
    requires
        is_white_space(c),
    ensures
        whitespace_split(a + seq![c] + b) == whitespace_split(a) + whitespace_split(b),
{
    lemma_split_pieces_at_space(a, c, b, Seq::empty());
}

/// Law: a line of white space alone has no words.
pub proof fn lemma_blank_line(s: Seq<char>)
    requires
        forall|i: int| 0 <= i < s.len() ==> is_white_space(#[trigger] s[i]),
    ensures
        whitespace_split(s) == Seq::<Seq<char>>::empty(),
    decreases s.len(),
{
    if s.len() > 0 {
        let t = s.drop_first();
        assert forall|i: int| 0 <= i < t.len() implies is_white_space(#[trigger] t[i]) by {
            assert(t[i] == s[i + 1]);
        }
        lemma_blank_line(t);
        assert(is_white_space(s[0]));
        assert(Seq::<Seq<char>>::empty() + split_pieces(t, Seq::empty()) =~= split_pieces(
            t,
            Seq::empty(),
        ));
    }
}

} // verus!
