//! Text helpers over the character view of strings.
use vstd::prelude::*;
use vstd::string::*;
use vstd::utf8::*;

verus! {

/// `String::push` appends one character.
pub assume_specification[ String::push ](s: &mut String, c: char)
    ensures
        final(s)@ == old(s)@.push(c),
;

/// The texts held by a sequence of strings.
pub open spec fn texts(v: Seq<String>) -> Seq<Seq<char>> {
    Seq::new(v.len(), |i: int| v[i]@)
}

/// The text held by an optional string.
pub open spec fn opt_text(s: Option<String>) -> Option<Seq<char>> {
    match s {
        Some(t) => Some(t@),
        None => None,
    }
}

/// Whether two strings hold the same text.
pub fn str_eq(a: &str, b: &str) -> (same: bool)
    ensures
        same == (a@ == b@),
{
    a.to_owned() == b.to_owned()
}

/// Joins two pieces of text.
pub fn join2(a: &str, b: &str) -> (joined: String)
    ensures
        joined@ == a@ + b@,
{
    let mut out: String = a.to_owned();
    out.append(b);
    out
}

/// Whether `prefix` starts `s`.
pub open spec fn has_prefix(s: Seq<char>, prefix: Seq<char>) -> bool {
    prefix.len() <= s.len() && s.take(prefix.len() as int) == prefix
}

/// `s` without a leading `prefix`, if it has one.
pub open spec fn without_prefix(s: Seq<char>, prefix: Seq<char>) -> Option<Seq<char>> {
    if has_prefix(s, prefix) {
        Some(s.skip(prefix.len() as int))
    } else {
        None
    }
}

/// The rest of `s` after `prefix`, if `s` starts with it.
pub fn strip_prefix<'a>(s: &'a str, prefix: &str) -> (rest: Option<&'a str>)
    ensures
        match rest {
            Some(r) => without_prefix(s@, prefix@) == Some(r@) && s@ == prefix@ + r@,
            None => without_prefix(s@, prefix@) is None,
        },
{
    proof {
        if has_prefix(s@, prefix@) {
            prefix_is_what_is_cut_off(prefix@, s@.skip(prefix@.len() as int), s@);
        }
    }
    let total: usize = s.unicode_len();
    let head: usize = prefix.unicode_len();
    if head <= total && str_eq(s.substring_char(0, head), prefix) {
        assert(s@.subrange(0, head as int) == s@.take(head as int));
        assert(s@.subrange(head as int, total as int) == s@.skip(head as int));
        Some(s.substring_char(head, total))
    } else {
        assert(head <= total ==> s@.subrange(0, head as int) == s@.take(head as int));
        None
    }
}

/// The characters of `s`, in order.
pub fn chars_of(s: &str) -> (out: Vec<char>)
    ensures
        out@ == s@,
{
    let mut out: Vec<char> = Vec::new();
    for c in it: s.chars()
        invariant
            out@ == s@.take(it.index() as int),
            it.seq() == s@,
    {
        assert(s@.take(it.index() as int).push(c) == s@.take(it.index() as int + 1));
        out.push(c);
    }
    assert(s@.take(s@.len() as int) == s@);
    out
}

/// The string made of the characters `from..to` of `chars`.
pub fn text_of(chars: &Vec<char>, from: usize, to: usize) -> (out: String)
    requires
        from <= to <= chars@.len(),
    ensures
        out@ == chars@.subrange(from as int, to as int),
{
    let mut out: String = String::new();
    let mut i: usize = from;
    while i < to
        invariant
            from <= i <= to <= chars@.len(),
            out@ == chars@.subrange(from as int, i as int),
        decreases to - i,
    {
        assert(chars@.subrange(from as int, i as int).push(chars@[i as int]) == chars@.subrange(
            from as int,
            i + 1,
        ));
        out.push(chars[i]);
        i += 1;
    }
    out
}

/// Unicode `White_Space`.
pub open spec fn is_white_space(c: char) -> bool {
    let u = c as u32;
    ||| 0x9 <= u <= 0xd
    ||| u == 0x20
    ||| u == 0x85
    ||| u == 0xa0
    ||| u == 0x1680
    ||| 0x2000 <= u <= 0x200a
    ||| u == 0x2028
    ||| u == 0x2029
    ||| u == 0x202f
    ||| u == 0x205f
    ||| u == 0x3000
}

/// Whether `c` is white space.
pub fn white_space(c: char) -> (white: bool)
    ensures
        white == is_white_space(c),
{
    let u: u32 = c as u32;
    (0x9 <= u && u <= 0xd) || u == 0x20 || u == 0x85 || u == 0xa0 || u == 0x1680 || (0x2000 <= u
        && u <= 0x200a) || u == 0x2028 || u == 0x2029 || u == 0x202f || u == 0x205f || u == 0x3000
}

/// `s` without the white space at its two ends.
pub open spec fn trimmed(s: Seq<char>) -> Seq<char>
    decreases s.len(),
{
    if s.len() == 0 {
        s
    } else if is_white_space(s.first()) {
        trimmed(s.drop_first())
    } else if is_white_space(s.last()) {
        trimmed(s.drop_last())
    } else {
        s
    }
}

/// Trims the white space off both ends of `s`.
pub fn trim(s: &str) -> (out: String)
    ensures
        out@ == trimmed(s@),
{
    let chars: Vec<char> = chars_of(s);
    let mut from: usize = 0;
    let mut to: usize = chars.len();
    assert(chars@.subrange(0, to as int) == s@);
    while from < to && white_space(chars[from])
        invariant
            from <= to == chars@.len(),
            trimmed(chars@.subrange(from as int, to as int)) == trimmed(s@),
        decreases to - from,
    {
        assert(chars@.subrange(from as int, to as int).drop_first() == chars@.subrange(
            from + 1,
            to as int,
        ));
        from += 1;
    }
    while from < to && white_space(chars[to - 1])
        invariant
            from <= to <= chars@.len(),
            trimmed(chars@.subrange(from as int, to as int)) == trimmed(s@),
            from < to ==> !is_white_space(chars@[from as int]),
        decreases to - from,
    {
        assert(chars@.subrange(from as int, to as int).drop_last() == chars@.subrange(
            from as int,
            to - 1,
        ));
        to -= 1;
    }
    text_of(&chars, from, to)
}

/// The pieces of `s` between occurrences of `sep`: every character other than
/// `sep` extends the last piece, and every `sep` opens a new one.
pub open spec fn pieces(s: Seq<char>, sep: char) -> Seq<Seq<char>>
    decreases s.len(),
{
    if s.len() == 0 {
        seq![Seq::<char>::empty()]
    } else {
        let head = pieces(s.drop_last(), sep);
        if s.last() == sep {
            head.push(Seq::empty())
        } else {
            head.drop_last().push(head.last().push(s.last()))
        }
    }
}

/// Splits `s` at every occurrence of `sep`.
pub fn split(s: &str, sep: char) -> (out: Vec<String>)
    ensures
        texts(out@) == pieces(s@, sep),
{
    let chars: Vec<char> = chars_of(s);
    let mut done: Vec<String> = Vec::new();
    let mut last: String = String::new();
    let mut i: usize = 0;
    assert(chars@.take(0) == Seq::<char>::empty());
    assert(texts(done@).push(last@) =~= pieces(chars@.take(0), sep));
    while i < chars.len()
        invariant
            i <= chars@.len(),
            texts(done@).push(last@) == pieces(chars@.take(i as int), sep),
        decreases chars@.len() - i,
    {
        let c: char = chars[i];
        let ghost before = texts(done@).push(last@);
        assert(before.drop_last() == texts(done@));
        assert(chars@.take(i + 1).drop_last() == chars@.take(i as int));
        if c == sep {
            done.push(last);
            last = String::new();
            assert(texts(done@) == before);
        } else {
            last.push(c);
        }
        i += 1;
    }
    let ghost all = texts(done@).push(last@);
    assert(chars@.take(i as int) == s@);
    done.push(last);
    assert(texts(done@) == all);
    done
}

/// The pieces joined in order, with `sep` between neighbours.
pub open spec fn joined(parts: Seq<Seq<char>>, sep: Seq<char>) -> Seq<char>
    decreases parts.len(),
{
    if parts.len() == 0 {
        Seq::empty()
    } else if parts.len() == 1 {
        parts[0]
    } else {
        joined(parts.drop_last(), sep) + sep + parts.last()
    }
}

/// Joins strings with `sep` between neighbours.
pub fn join(parts: &Vec<String>, sep: &str) -> (out: String)
    ensures
        out@ == joined(texts(parts@), sep@),
{
    let mut out: String = String::new();
    let mut i: usize = 0;
    assert(texts(parts@).take(0) == Seq::<Seq<char>>::empty());
    while i < parts.len()
        invariant
            i <= parts@.len(),
            out@ == joined(texts(parts@).take(i as int), sep@),
        decreases parts@.len() - i,
    {
        assert(texts(parts@).take(i + 1).drop_last() == texts(parts@).take(i as int));
        if i > 0 {
            out.append(sep);
        }
        out.append(parts[i].as_str());
        i += 1;
        assert(out@ =~= joined(texts(parts@).take(i as int), sep@));
    }
    assert(texts(parts@).take(i as int) == texts(parts@));
    out
}

/// The lower-case hexadecimal digit of a value below sixteen.
pub open spec fn hex_digit(v: int) -> char {
    if v < 10 {
        ('0' as u32 + v) as char
    } else {
        ('a' as u32 + (v - 10)) as char
    }
}

/// The lower-case hexadecimal form of `bytes`, two digits per byte.
pub open spec fn hex_text(bytes: Seq<u8>) -> Seq<char> {
    Seq::new(
        2 * bytes.len(),
        |i: int|
            if i % 2 == 0 {
                hex_digit(bytes[i / 2] as int / 16)
            } else {
                hex_digit(bytes[i / 2] as int % 16)
            },
    )
}

fn digit_char(v: u8) -> (c: char)
    requires
        v < 16,
    ensures
        c == hex_digit(v as int),
{
    if v < 10 {
        (48u8 + v) as char
    } else {
        (97u8 + (v - 10)) as char
    }
}

/// Renders bytes as lower-case hexadecimal.
pub fn hex(bytes: &Vec<u8>) -> (out: String)
    ensures
        out@ == hex_text(bytes@),
{
    let mut out: String = String::new();
    let mut i: usize = 0;
    while i < bytes.len()
        invariant
            i <= bytes@.len(),
            out@ == hex_text(bytes@.take(i as int)),
        decreases bytes@.len() - i,
    {
        let ghost before = out@;
        out.push(digit_char(bytes[i] / 16));
        out.push(digit_char(bytes[i] % 16));
        assert(hex_text(bytes@.take(i + 1)) =~= out@) by {
            assert forall|k: int| 0 <= k < 2 * (i + 1) implies #[trigger] hex_text(
                bytes@.take(i + 1),
            )[k] == out@[k] by {
                if k < 2 * i {
                    assert(hex_text(bytes@.take(i as int))[k] == before[k]);
                }
            }
        }
        i += 1;
    }
    assert(bytes@.take(i as int) == bytes@);
    out
}

/// The decimal form of `n`.
pub open spec fn decimal_text(n: nat) -> Seq<char>
    decreases n,
{
    if n < 10 {
        seq![hex_digit(n as int)]
    } else {
        decimal_text(n / 10).push(hex_digit((n % 10) as int))
    }
}

/// Renders `n` in decimal.
pub fn decimal(n: u64) -> (out: String)
    ensures
        out@ == decimal_text(n as nat),
    decreases n,
{
    let mut out: String = if n < 10 {
        String::new()
    } else {
        decimal(n / 10)
    };
    out.push(digit_char((n % 10) as u8));
    assert(out@ =~= decimal_text(n as nat));
    out
}

/// The octal form of `n`, without a prefix.
pub open spec fn octal_text(n: nat) -> Seq<char>
    decreases n,
{
    if n < 8 {
        seq![hex_digit(n as int)]
    } else {
        octal_text(n / 8).push(hex_digit((n % 8) as int))
    }
}

/// Renders `n` in octal.
pub fn octal(n: u32) -> (out: String)
    ensures
        out@ == octal_text(n as nat),
    decreases n,
{
    let mut out: String = if n < 8 {
        String::new()
    } else {
        octal(n / 8)
    };
    out.push(digit_char((n % 8) as u8));
    assert(out@ =~= octal_text(n as nat));
    out
}

/// Bytes as a list of decimal numbers in square brackets.
pub open spec fn byte_list_text(bytes: Seq<u8>) -> Seq<char> {
    "["@ + joined(bytes.map_values(|b: u8| decimal_text(b as nat)), ", "@) + "]"@
}

/// Renders bytes as a list of decimal numbers in square brackets.
pub fn byte_list(bytes: &Vec<u8>) -> (out: String)
    ensures
        out@ == byte_list_text(bytes@),
{
    let mut numbers: Vec<String> = Vec::new();
    let mut i: usize = 0;
    while i < bytes.len()
        invariant
            i <= bytes@.len(),
            texts(numbers@) == bytes@.take(i as int).map_values(|b: u8| decimal_text(b as nat)),
        decreases bytes@.len() - i,
    {
        let ghost before = texts(numbers@);
        numbers.push(decimal(bytes[i] as u64));
        i += 1;
        assert(texts(numbers@) =~= before.push(decimal_text(bytes@[i - 1] as nat)));
        assert(texts(numbers@) =~= bytes@.take(i as int).map_values(
            |b: u8| decimal_text(b as nat),
        ));
    }
    assert(bytes@.take(i as int) == bytes@);
    let mut out: String = "[".to_owned();
    out.append(join(&numbers, ", ").as_str());
    out.append("]");
    out
}

/// The quoted and escaped form of a text that `format!("{:?}")` gives.
pub uninterp spec fn quoted_text(s: Seq<char>) -> Seq<char>;

/// Calls `format!("{:?}")` on a text: the result is a function of the text.
/// Which characters are escaped, and how, is left to the standard library.
#[verifier::external_body]
pub(crate) fn quoted(s: &str) -> (out: String)
    ensures
        out@ == quoted_text(s@),
{
    format!("{:?}", s)
}

/// What [`String::from_utf8_lossy`] makes of `bytes`.
pub uninterp spec fn utf8_lossy(bytes: Seq<u8>) -> Seq<char>;

/// The text of `bytes`: their decoding where they are valid UTF-8, or else with
/// replacement characters in it.
pub open spec fn lossy_text(bytes: Seq<u8>) -> Seq<char> {
    if valid_utf8(bytes) {
        decode_utf8(bytes)
    } else {
        utf8_lossy(bytes)
    }
}

/// Calls [`String::from_utf8_lossy`]: the text is a function of the bytes, and
/// bytes that are valid UTF-8 are decoded as they stand. Where the replacement
/// characters go in other input is left to that function.
#[verifier::external_body]
pub(crate) fn decode_lossy(bytes: &[u8]) -> (text: String)
    ensures
        text@ == utf8_lossy(bytes@),
        valid_utf8(bytes@) ==> text@ == decode_utf8(bytes@),
{
    String::from_utf8_lossy(bytes).into_owned()
}

/// Calls [`std::str::from_utf8`]: it succeeds exactly on valid UTF-8, and the
/// text it gives is the decoding of the bytes.
#[verifier::external_body]
pub(crate) fn decode_utf8_strict(bytes: &[u8]) -> (text: Option<String>)
    ensures
        text is Some <==> valid_utf8(bytes@),
        text matches Some(t) ==> t@ == decode_utf8(bytes@),
{
    std::str::from_utf8(bytes).ok().map(str::to_owned)
}

/// Every text of a list is that of the string in its place, and nothing else is in the
/// list.
pub proof fn texts_are_those_of_the_strings(v: Seq<String>, i: int)
    ensures
        texts(v).len() == v.len(),
        0 <= i < v.len() ==> texts(v)[i] == v[i]@,
{
}

/// An optional string has a text exactly if it is there.
pub proof fn optional_text_is_that_of_the_string(s: Option<String>)
    ensures
        opt_text(s) is Some <==> s is Some,
        s matches Some(t) ==> opt_text(s) == Some(t@),
{
}

/// Cutting a prefix off and putting it back gives the text; a text that the prefix
/// was put before can be cut.
pub proof fn prefix_is_what_is_cut_off(prefix: Seq<char>, rest: Seq<char>, s: Seq<char>)
    ensures
        without_prefix(prefix + rest, prefix) == Some(rest),
        without_prefix(s, prefix) matches Some(r) ==> s == prefix + r,
        without_prefix(s, prefix) is None ==> s != prefix + rest,
        has_prefix(s, prefix) <==> without_prefix(s, prefix) is Some,
{
    assert((prefix + rest).take(prefix.len() as int) =~= prefix);
    assert((prefix + rest).skip(prefix.len() as int) =~= rest);
    if has_prefix(s, prefix) {
        assert(s =~= s.take(prefix.len() as int) + s.skip(prefix.len() as int));
    }
}

/// The code points that Unicode gives the property `White_Space`.
pub open spec fn white_space_code_points() -> Seq<u32> {
    seq![
        0x9u32, 0xau32, 0xbu32, 0xcu32, 0xdu32, 0x20u32, 0x85u32, 0xa0u32, 0x1680u32, 0x2000u32,
        0x2001u32, 0x2002u32, 0x2003u32, 0x2004u32, 0x2005u32, 0x2006u32, 0x2007u32, 0x2008u32,
        0x2009u32, 0x200au32, 0x2028u32, 0x2029u32, 0x202fu32, 0x205fu32, 0x3000u32,
    ]
}

/// White space is what is listed, and nothing else.
pub proof fn white_space_is_what_unicode_lists(c: char)
    ensures
        is_white_space(c) <==> white_space_code_points().contains(c as u32),
        white_space_code_points().len() == 25,
{
    let all = white_space_code_points();
    let u = c as u32;
    if is_white_space(c) {
        let at: int = if u <= 0xd {
            u - 9
        } else if u == 0x20 {
            5
        } else if u == 0x85 {
            6
        } else if u == 0xa0 {
            7
        } else if u == 0x1680 {
            8
        } else if u <= 0x200a {
            u - 0x2000 + 9
        } else if u == 0x2028 {
            20
        } else if u == 0x2029 {
            21
        } else if u == 0x202f {
            22
        } else if u == 0x205f {
            23
        } else {
            24
        };
        assert(all[at] == u);
    }
}

/// Trimming takes white space off both ends and nothing else, and leaves none there.
pub proof fn trimming_leaves_the_middle(s: Seq<char>) -> (ends: (Seq<char>, Seq<char>))
    ensures
        s == ends.0 + trimmed(s) + ends.1,
        forall|i: int| 0 <= i < ends.0.len() ==> is_white_space(#[trigger] ends.0[i]),
        forall|i: int| 0 <= i < ends.1.len() ==> is_white_space(#[trigger] ends.1[i]),
        trimmed(s).len() > 0 ==> !is_white_space(trimmed(s).first()) && !is_white_space(
            trimmed(s).last(),
        ),
    decreases s.len(),
{
    if s.len() == 0 {
        (Seq::empty(), Seq::empty())
    } else if is_white_space(s.first()) {
        let (a, b) = trimming_leaves_the_middle(s.drop_first());
        assert(s =~= seq![s.first()] + s.drop_first());
        assert(seq![s.first()] + (a + trimmed(s) + b) =~= (seq![s.first()] + a) + trimmed(s) + b);
        (seq![s.first()] + a, b)
    } else if is_white_space(s.last()) {
        let (a, b) = trimming_leaves_the_middle(s.drop_last());
        assert(s =~= s.drop_last().push(s.last()));
        assert((a + trimmed(s) + b).push(s.last()) =~= a + trimmed(s) + b.push(s.last()));
        (a, b.push(s.last()))
    } else {
        assert(s =~= Seq::<char>::empty() + s + Seq::<char>::empty());
        (Seq::empty(), Seq::empty())
    }
}

/// Joining nothing gives nothing, joining one text gives it, and joining two lists one
/// after the other puts one separator between them.
pub proof fn joining_puts_separators_between(
    xs: Seq<Seq<char>>,
    ys: Seq<Seq<char>>,
    x: Seq<char>,
    sep: Seq<char>,
)
    ensures
        joined(Seq::empty(), sep) == Seq::<char>::empty(),
        joined(seq![x], sep) == x,
        xs.len() > 0 && ys.len() > 0 ==> joined(xs + ys, sep) == joined(xs, sep) + sep + joined(
            ys,
            sep,
        ),
    decreases ys.len(),
{
    if xs.len() > 0 && ys.len() > 0 {
        let all = xs + ys;
        assert(all.last() == ys.last());
        assert(all.drop_last() =~= xs + ys.drop_last());
        if ys.len() == 1 {
            assert(xs + ys.drop_last() =~= xs);
        } else {
            joining_puts_separators_between(xs, ys.drop_last(), x, sep);
            assert(joined(all, sep) =~= joined(xs, sep) + sep + joined(ys, sep));
        }
    }
}

/// Splitting and joining undo each other: the pieces joined are the text, no piece has
/// the separator in it, and a text that was joined from pieces without the separator
/// falls into these pieces again.
pub proof fn splitting_undoes_joining(s: Seq<char>, sep: char, parts: Seq<Seq<char>>)
    ensures
        joined(pieces(s, sep), seq![sep]) == s,
        pieces(s, sep).len() > 0,
        forall|i: int, j: int|
            0 <= i < pieces(s, sep).len() && 0 <= j < pieces(s, sep)[i].len()
                ==> #[trigger] pieces(s, sep)[i][j] != sep,
        parts.len() > 0 && (forall|i: int, j: int|
            0 <= i < parts.len() && 0 <= j < parts[i].len() ==> #[trigger] parts[i][j] != sep)
            ==> pieces(joined(parts, seq![sep]), sep) == parts,
{
    lemma_pieces_joined(s, sep);
    if parts.len() > 0 && (forall|i: int, j: int|
        0 <= i < parts.len() && 0 <= j < parts[i].len() ==> #[trigger] parts[i][j] != sep) {
        lemma_joined_pieces(parts, sep);
    }
}

proof fn lemma_pieces_joined(s: Seq<char>, sep: char)
    ensures
        joined(pieces(s, sep), seq![sep]) == s,
        pieces(s, sep).len() > 0,
        forall|i: int, j: int|
            0 <= i < pieces(s, sep).len() && 0 <= j < pieces(s, sep)[i].len()
                ==> #[trigger] pieces(s, sep)[i][j] != sep,
    decreases s.len(),
{
    let all = pieces(s, sep);
    let between = seq![sep];
    if s.len() == 0 {
        assert(joined(all, between) =~= s);
    } else {
        let head = pieces(s.drop_last(), sep);
        lemma_pieces_joined(s.drop_last(), sep);
        if s.last() == sep {
            assert(all.drop_last() =~= head);
            assert(joined(all, between) =~= s);
        } else {
            assert(all.drop_last() =~= head.drop_last());
            assert(all.last() == head.last().push(s.last()));
            assert(s =~= s.drop_last().push(s.last()));
            assert(joined(all, between) =~= joined(head, between).push(s.last()));
            assert forall|i: int, j: int| 0 <= i < all.len() && 0 <= j < all[i].len() implies
                #[trigger] all[i][j] != sep by {
                if i < all.len() - 1 {
                    assert(all[i] == head[i]);
                    assert(head[i][j] != sep);
                } else if j < head.last().len() {
                    assert(head[head.len() - 1][j] != sep);
                }
            }
        }
    }
}

proof fn lemma_pieces_append(s: Seq<char>, sep: char, tail: Seq<char>)
    requires
        forall|j: int| 0 <= j < tail.len() ==> #[trigger] tail[j] != sep,
    ensures
        pieces(s + tail, sep) == pieces(s, sep).drop_last().push(pieces(s, sep).last() + tail),
    decreases tail.len(),
{
    lemma_pieces_joined(s, sep);
    let head = pieces(s, sep);
    if tail.len() == 0 {
        assert(s + tail =~= s);
        assert(head.last() + tail =~= head.last());
        assert(head =~= head.drop_last().push(head.last()));
    } else {
        lemma_pieces_append(s, sep, tail.drop_last());
        assert((s + tail).drop_last() =~= s + tail.drop_last());
        let mid = pieces(s + tail.drop_last(), sep);
        assert(mid.drop_last() =~= head.drop_last());
        assert(mid.last().push(tail.last()) =~= head.last() + tail);
    }
}

proof fn lemma_joined_pieces(parts: Seq<Seq<char>>, sep: char)
    requires
        parts.len() > 0,
        forall|i: int, j: int|
            0 <= i < parts.len() && 0 <= j < parts[i].len() ==> #[trigger] parts[i][j] != sep,
    ensures
        pieces(joined(parts, seq![sep]), sep) == parts,
    decreases parts.len(),
{
    let none = Seq::<char>::empty();
    let last = parts.last();
    assert forall|j: int| 0 <= j < last.len() implies #[trigger] last[j] != sep by {
        assert(parts[parts.len() - 1][j] != sep);
    }
    if parts.len() == 1 {
        lemma_pieces_append(none, sep, last);
        assert(none + last =~= last);
        assert(pieces(last, sep) =~= parts);
    } else {
        let front = parts.drop_last();
        assert forall|i: int, j: int| 0 <= i < front.len() && 0 <= j < front[i].len() implies
            #[trigger] front[i][j] != sep by {
            assert(parts[i][j] != sep);
        }
        lemma_joined_pieces(front, sep);
        let before = joined(front, seq![sep]);
        let opened = before + seq![sep];
        assert(opened.drop_last() =~= before);
        assert(pieces(opened, sep) =~= front.push(none));
        lemma_pieces_append(opened, sep, last);
        assert(none + last =~= last);
        assert(front.push(none).drop_last() =~= front);
        assert(parts =~= front.push(last));
    }
}

/// The sixteen digits, in order of their values.
pub open spec fn digits() -> Seq<char> {
    "0123456789abcdef"@
}

/// Every byte becomes two digits: that of its upper and that of its lower four bits.
pub proof fn hex_has_two_digits_for_every_byte(bytes: Seq<u8>, i: int)
    requires
        0 <= i < bytes.len(),
    ensures
        hex_text(bytes).len() == 2 * bytes.len(),
        hex_text(bytes)[2 * i] == digits()[bytes[i] as int / 16],
        hex_text(bytes)[2 * i + 1] == digits()[bytes[i] as int % 16],
        digits() == "0123456789abcdef"@,
{
    lemma_digits(bytes[i] as int / 16);
    lemma_digits(bytes[i] as int % 16);
    assert((2 * i + 1) / 2 == i);
}

proof fn lemma_digits(v: int)
    requires
        0 <= v < 16,
    ensures
        hex_digit(v) == digits()[v],
        digits().len() == 16,
{
    reveal_strlit("0123456789abcdef");
}

/// The hexadecimal form of two pieces is that of the one and then that of the other.
pub proof fn hex_goes_byte_by_byte(a: Seq<u8>, b: Seq<u8>)
    ensures
        hex_text(a + b) == hex_text(a) + hex_text(b),
{
    assert forall|i: int| 0 <= i < 2 * (a.len() + b.len()) implies #[trigger] hex_text(a + b)[i] == (
    hex_text(a) + hex_text(b))[i] by {
        if i >= 2 * a.len() {
            let j = i - 2 * a.len();
            assert((a + b)[i / 2] == b[j / 2]);
            assert(i % 2 == j % 2);
        }
    }
    assert(hex_text(a + b) =~= hex_text(a) + hex_text(b));
}

/// The value of a digit.
pub open spec fn digit_value(c: char) -> int {
    digits().index_of(c)
}

/// The number that digits stand for, the most significant first.
pub open spec fn number_value(s: Seq<char>, base: int) -> int
    decreases s.len(),
{
    if s.len() == 0 {
        0
    } else {
        number_value(s.drop_last(), base) * base + digit_value(s.last())
    }
}

proof fn lemma_digit_value(v: int)
    requires
        0 <= v < 16,
    ensures
        digit_value(hex_digit(v)) == v,
{
    lemma_digits(v);
    reveal_strlit("0123456789abcdef");
    assert(digits().contains(hex_digit(v)));
    let at = digits().index_of(hex_digit(v));
    assert(0 <= at < 16 && digits()[at] == digits()[v]);
    assert(digits()[at] == hex_digit(at)) by {
        lemma_digits(at);
    }
}

/// The decimal form of a number stands for that number, is made of decimal digits, and
/// does not start with a zero unless it is one.
pub proof fn decimal_stands_for_the_number(n: nat)
    ensures
        number_value(decimal_text(n), 10) == n,
        decimal_text(n).len() > 0,
        decimal_text(n)[0] == '0' ==> n == 0 && decimal_text(n).len() == 1,
        forall|i: int|
            0 <= i < decimal_text(n).len() ==> '0' <= #[trigger] decimal_text(n)[i] && decimal_text(
                n,
            )[i] <= '9',
    decreases n,
{
    let s = decimal_text(n);
    lemma_digit_value((n % 10) as int);
    if n < 10 {
        lemma_digit_value(n as int);
        assert(s.drop_last() =~= Seq::empty());
        assert(number_value(s.drop_last(), 10) == 0);
    } else {
        decimal_stands_for_the_number(n / 10);
        assert(s.drop_last() =~= decimal_text(n / 10));
        assert forall|i: int| 0 <= i < s.len() implies '0' <= #[trigger] s[i] && s[i] <= '9' by {
            if i < s.len() - 1 {
                assert(s[i] == decimal_text(n / 10)[i]);
            }
        }
    }
}

/// The octal form of a number stands for that number, is made of octal digits, and
/// does not start with a zero unless it is one.
pub proof fn octal_stands_for_the_number(n: nat)
    ensures
        number_value(octal_text(n), 8) == n,
        octal_text(n).len() > 0,
        octal_text(n)[0] == '0' ==> n == 0 && octal_text(n).len() == 1,
        forall|i: int|
            0 <= i < octal_text(n).len() ==> '0' <= #[trigger] octal_text(n)[i] && octal_text(n)[i]
                <= '7',
    decreases n,
{
    let s = octal_text(n);
    lemma_digit_value((n % 8) as int);
    if n < 8 {
        lemma_digit_value(n as int);
        assert(s.drop_last() =~= Seq::empty());
        assert(number_value(s.drop_last(), 8) == 0);
    } else {
        octal_stands_for_the_number(n / 8);
        assert(s.drop_last() =~= octal_text(n / 8));
        assert forall|i: int| 0 <= i < s.len() implies '0' <= #[trigger] s[i] && s[i] <= '7' by {
            if i < s.len() - 1 {
                assert(s[i] == octal_text(n / 8)[i]);
            }
        }
    }
}

/// A list of bytes stands in square brackets: the decimal forms of the bytes, in order,
/// with a comma and a space between neighbours.
pub proof fn byte_list_shows_every_byte(a: Seq<u8>, b: Seq<u8>, x: u8)
    ensures
        byte_list_text(Seq::empty()) == "[]"@,
        byte_list_text(seq![x]) == "["@ + decimal_text(x as nat) + "]"@,
        a.len() > 0 && b.len() > 0 ==> byte_list_text(a + b) == byte_list_text(a).drop_last()
            + ", "@ + byte_list_text(b).drop_first(),
{
    reveal_strlit("[]");
    reveal_strlit("[");
    reveal_strlit("]");
    let show = |b: u8| decimal_text(b as nat);
    let none = Seq::<u8>::empty();
    assert(none.map_values(show) =~= Seq::empty());
    assert(byte_list_text(none) =~= "[]"@);
    assert(seq![x].map_values(show) =~= seq![decimal_text(x as nat)]);
    assert((a + b).map_values(show) =~= a.map_values(show) + b.map_values(show));
    joining_puts_separators_between(a.map_values(show), b.map_values(show), Seq::empty(), ", "@);
    if a.len() > 0 && b.len() > 0 {
        assert(byte_list_text(a + b) =~= byte_list_text(a).drop_last() + ", "@ + byte_list_text(
            b,
        ).drop_first());
    }
}

/// Bytes that are the encoding of a text are read as that text.
pub proof fn valid_bytes_are_read_as_they_stand(bytes: Seq<u8>)
    ensures
        valid_utf8(bytes) ==> lossy_text(bytes) == decode_utf8(bytes),
        !valid_utf8(bytes) ==> lossy_text(bytes) == utf8_lossy(bytes),
{
}

} // verus!
