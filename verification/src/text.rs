//! Small operations on text.

use vstd::prelude::*;

verus! {

/// What stands before the last `c` in `s`, if there is one.
pub open spec fn before_last(s: Seq<char>, c: char) -> Option<Seq<char>>
    decreases s.len(),
{
    if s.len() == 0 {
        None
    } else if s.last() == c {
        Some(s.drop_last())
    } else {
        before_last(s.drop_last(), c)
    }
}

/// What stands between the first `c` in `s` and the next one, or the end; `None` without a `c`.
pub open spec fn second_piece(s: Seq<char>, c: char) -> Option<Seq<char>> {
    if s.contains(c) {
        Some(first_piece(s.skip(first_piece(s, c).len() as int + 1), c))
    } else {
        None
    }
}

/// What stands before the first `c` in `s`; all of `s` without one.
pub open spec fn first_piece(s: Seq<char>, c: char) -> Seq<char>
    decreases s.len(),
{
    if s.len() == 0 || s[0] == c {
        Seq::empty()
    } else {
        seq![s[0]] + first_piece(s.drop_first(), c)
    }
}

/// Whether two texts are the same.
pub fn same_text(a: &str, b: &str) -> (r: bool)
    ensures
        r == (a@ == b@),
{
    a.to_owned() == b.to_owned()
}

/// The text before the last `c`.
pub fn text_before_last(s: &str, c: char) -> (r: Option<String>)
    ensures
        match r {
            Some(t) => before_last(s@, c) == Some(t@),
            None => before_last(s@, c) is None,
        },
{
    let mut i: usize = s.unicode_len();
    assert(s@.take(i as int) =~= s@);
    while i > 0
        invariant
            i <= s@.len(),
            before_last(s@, c) == before_last(s@.take(i as int), c),
        decreases i,
    {
        assert(s@.take(i as int).drop_last() =~= s@.take(i - 1));
        if s.get_char(i - 1) == c {
            assert(s@.subrange(0, i - 1) =~= s@.take(i - 1));
            return Some(s.substring_char(0, i - 1).to_owned());
        }
        i = i - 1;
    }
    None
}

/// The piece before the first `c` ends there, and holds no `c`.
proof fn lemma_first_piece(s: Seq<char>, c: char)
    ensures
        first_piece(s, c).len() <= s.len(),
        first_piece(s, c) == s.take(first_piece(s, c).len() as int),
        !first_piece(s, c).contains(c),
        first_piece(s, c).len() < s.len() ==> s[first_piece(s, c).len() as int] == c,
        s.contains(c) <==> first_piece(s, c).len() < s.len(),
    decreases s.len(),
{
    let p = first_piece(s, c);
    if s.len() == 0 || s[0] == c {
        assert(p =~= s.take(0));
    } else {
        let rest = s.drop_first();
        lemma_first_piece(rest, c);
        let q = first_piece(rest, c);
        assert(p =~= s.take(p.len() as int));
        assert forall|i: int| 0 <= i < p.len() implies p[i] != c by {
            if i > 0 {
                assert(q[i - 1] == p[i]);
            }
        }
        if s.contains(c) {
            let i = choose|i: int| 0 <= i < s.len() && s[i] == c;
            assert(rest[i - 1] == c);
        }
        if rest.contains(c) {
            let i = choose|i: int| 0 <= i < rest.len() && rest[i] == c;
            assert(s[i + 1] == c);
        }
    }
}

/// A position where `c` first occurs, or the end, closes the first piece.
proof fn lemma_first_piece_at(s: Seq<char>, c: char, n: int)
    requires
        0 <= n <= s.len(),
        forall|i: int| 0 <= i < n ==> s[i] != c,
        n < s.len() ==> s[n] == c,
    ensures
        first_piece(s, c) == s.take(n),
{
    lemma_first_piece(s, c);
    let m = first_piece(s, c).len() as int;
    if m < n {
        assert(s[m] == c);
    }
    if n < m {
        assert(first_piece(s, c)[n] == s[n]);
        assert(first_piece(s, c).contains(c));
    }
}

/// The first position from `from` on where `c` stands; the length of `s` without one.
fn find_from(s: &str, c: char, from: usize) -> (n: usize)
    requires
        from <= s@.len(),
    ensures
        from <= n <= s@.len(),
        s@.subrange(from as int, n as int) == first_piece(s@.skip(from as int), c),
        n < s@.len() ==> s@[n as int] == c,
        n == s@.len() ==> !s@.skip(from as int).contains(c),
{
    let len: usize = s.unicode_len();
    let mut n: usize = from;
    while n < len && s.get_char(n) != c
        invariant
            from <= n <= len,
            len == s@.len(),
            forall|i: int| from <= i < n ==> s@[i] != c,
        decreases len - n,
    {
        n = n + 1;
    }
    proof {
        let rest = s@.skip(from as int);
        assert forall|i: int| 0 <= i < n - from implies rest[i] != c by {
            assert(rest[i] == s@[from + i]);
        }
        lemma_first_piece_at(rest, c, n - from);
        assert(rest.take(n - from) =~= s@.subrange(from as int, n as int));
        lemma_first_piece(rest, c);
    }
    n
}

/// The text between the first `c` and the next one.
pub fn text_second_piece(s: &str, c: char) -> (r: Option<String>)
    ensures
        match r {
            Some(t) => second_piece(s@, c) == Some(t@),
            None => second_piece(s@, c) is None,
        },
{
    assert(s@.skip(0) =~= s@);
    let first: usize = find_from(s, c, 0);
    let len: usize = s.unicode_len();
    proof {
        lemma_first_piece(s@, c);
        assert(first_piece(s@, c).len() == first);
    }
    if first == len {
        return None;
    }
    let next: usize = find_from(s, c, first + 1);
    Some(s.substring_char(first + 1, next).to_owned())
}

/// `n` in decimal digits.
pub open spec fn decimal(n: nat) -> Seq<char>
    decreases n,
{
    let last = (n % 10 + 48) as char;
    if n < 10 {
        seq![last]
    } else {
        decimal(n / 10).push(last)
    }
}

/// `n` in decimal digits, as text.
pub fn decimal_text(n: u32) -> (s: String)
    ensures
        s@ == decimal(n as nat),
    decreases n,
{
    let mut s: String = if n < 10 {
        String::new()
    } else {
        decimal_text(n / 10)
    };
    s.push(char::from_u32(n % 10 + 48).unwrap());
    assert(s@ =~= decimal(n as nat));
    s
}

/// What UTF-16 `units` spell; a surrogate without its partner reads as U+FFFD.
pub open spec fn decoded(units: Seq<u16>) -> Seq<char>
    decreases units.len(),
{
    if units.len() == 0 {
        Seq::empty()
    } else if units.len() > 1 && 0xD800 <= units[0] < 0xDC00 && 0xDC00 <= units[1] < 0xE000 {
        seq![(0x10000 + (units[0] - 0xD800) * 0x400 + (units[1] - 0xDC00)) as char] + decoded(
            units.skip(2),
        )
    } else if 0xD800 <= units[0] < 0xE000 {
        seq!['\u{FFFD}'] + decoded(units.skip(1))
    } else {
        seq![units[0] as char] + decoded(units.skip(1))
    }
}

/// `String::push`: appends a character.
pub assume_specification[ String::push ](s: &mut String, c: char)
    ensures
        final(s)@ == old(s)@.push(c),
;

/// `char::from_u32`: the character with a code, `None` for a surrogate or a code past the last.
pub assume_specification[ char::from_u32 ](code: u32) -> (c: Option<char>)
    ensures
        match c {
            Some(c) => c == code as char && !(0xD800 <= code < 0xE000) && code <= 0x10FFFF,
            None => 0xD800 <= code < 0xE000 || code > 0x10FFFF,
        },
;

/// The text that UTF-16 `units` spell.
pub fn utf16_text(units: &Vec<u16>) -> (s: String)
    ensures
        s@ == decoded(units@),
{
    let mut s: String = String::new();
    let mut i: usize = 0;
    let n: usize = units.len();
    assert(units@.skip(0) =~= units@);
    while i < n
        invariant
            i <= n == units@.len(),
            decoded(units@) == s@ + decoded(units@.skip(i as int)),
        decreases n - i,
    {
        let u: u32 = units[i] as u32;
        let ghost rest = units@.skip(i as int);
        let ghost before = s@;
        assert(rest.skip(1) =~= units@.skip(i + 1));
        if 0xD800 <= u && u < 0xE000 {
            if u < 0xDC00 && n - i > 1 && 0xDC00 <= units[i + 1] && units[i + 1] < 0xE000 {
                let code: u32 = 0x10000 + (u - 0xD800) * 0x400 + (units[i + 1] as u32 - 0xDC00);
                let c: char = char::from_u32(code).unwrap();
                s.push(c);
                assert(rest.skip(2) =~= units@.skip(i + 2));
                assert(before.push(c) + decoded(rest.skip(2)) =~= before + decoded(rest));
                i = i + 2;
            } else {
                s.push('\u{FFFD}');
                assert(before.push('\u{FFFD}') + decoded(rest.skip(1)) =~= before + decoded(rest));
                i = i + 1;
            }
        } else {
            let c: char = char::from_u32(u).unwrap();
            s.push(c);
            assert(before.push(c) + decoded(rest.skip(1)) =~= before + decoded(rest));
            i = i + 1;
        }
    }
    assert(s@ + decoded(units@.skip(i as int)) =~= s@);
    s
}

/// The last mark is where a text is split: what follows it is dropped whole, what stands before it
/// is kept whole, further marks included.
pub proof fn text_is_split_at_the_last_mark(head: Seq<char>, tail: Seq<char>, c: char)
    requires
        !tail.contains(c),
    ensures
        before_last(head.push(c) + tail, c) == Some(head),
        before_last(tail, c) is None,
    decreases tail.len(),
{
    let s = head.push(c) + tail;
    if tail.len() == 0 {
        assert(s =~= head.push(c));
        assert(s.drop_last() =~= head);
    } else {
        let shorter = tail.drop_last();
        assert(tail.contains(tail.last()));
        assert forall|d: char| shorter.contains(d) implies tail.contains(d) by {
            let i = choose|i: int| 0 <= i < shorter.len() && shorter[i] == d;
            assert(tail[i] == d);
        }
        text_is_split_at_the_last_mark(head, shorter, c);
        assert(s.drop_last() =~= head.push(c) + shorter);
    }
}

/// The piece between the first mark and the next is taken whole, or up to the end without a next;
/// a text without a mark has no such piece.
pub proof fn second_piece_lies_between_marks(
    head: Seq<char>,
    piece: Seq<char>,
    tail: Seq<char>,
    c: char,
)
    requires
        !head.contains(c),
        !piece.contains(c),
    ensures
        second_piece(head.push(c) + piece, c) == Some(piece),
        second_piece(head.push(c) + piece.push(c) + tail, c) == Some(piece),
        second_piece(head, c) is None,
{
    let n = head.len() as int;
    let m = piece.len() as int;
    let (s, t) = (head.push(c) + piece, head.push(c) + piece.push(c) + tail);
    assert(s[n] == c && t[n] == c);
    assert forall|i: int| 0 <= i < n implies s[i] != c && t[i] != c by {
        assert(s[i] == head[i] && t[i] == head[i]);
        assert(head.contains(head[i]));
    }
    lemma_first_piece_at(s, c, n);
    lemma_first_piece_at(t, c, n);
    let (a, b) = (s.skip(n + 1), t.skip(n + 1));
    assert(a =~= piece);
    assert(b =~= piece.push(c) + tail);
    assert forall|i: int| 0 <= i < m implies a[i] != c && b[i] != c by {
        assert(piece.contains(piece[i]));
    }
    lemma_first_piece_at(a, c, m);
    lemma_first_piece_at(b, c, m);
    assert(a.take(m) =~= piece);
    assert(b.take(m) =~= piece);
}

/// The number that decimal digits stand for.
pub open spec fn decimal_value(text: Seq<char>) -> int
    decreases text.len(),
{
    if text.len() == 0 {
        0
    } else {
        10 * decimal_value(text.drop_last()) + (text.last() as u32 - 48)
    }
}

/// A number in decimal digits can be read back, and has no zero in front.
pub proof fn decimal_digits_read_back(n: nat)
    ensures
        decimal_value(decimal(n)) == n,
        decimal(n).len() > 0,
        forall|i: int|
            0 <= i < decimal(n).len() ==> '0' as u32 <= #[trigger] decimal(n)[i] as u32
                <= '9' as u32,
        decimal(n).len() > 1 ==> decimal(n)[0] != '0',
        decimal(n).len() == 1 <==> n < 10,
    decreases n,
{
    let d = decimal(n);
    if n < 10 {
        assert(d.drop_last() =~= Seq::<char>::empty());
        assert(decimal_value(Seq::<char>::empty()) == 0);
    } else {
        decimal_digits_read_back(n / 10);
        assert(d.drop_last() =~= decimal(n / 10));
        assert(n / 10 < 10 ==> decimal(n / 10)[0] == (n / 10 % 10 + 48) as char);
    }
}

/// UTF-16 is read unit by unit: a plain unit is the character with its code, a leading surrogate and
/// the trailing one behind it are one character past the basic plane, and any other surrogate is
/// replaced, without a bearing on what follows.
pub proof fn utf16_is_read_unit_by_unit(u: u16, v: u16, rest: Seq<u16>)
    ensures
        decoded(Seq::<u16>::empty()).len() == 0,
        u < 0xD800 || u >= 0xE000 ==> decoded(seq![u] + rest) == seq![u as char] + decoded(rest),
        0xD800 <= u < 0xDC00 && 0xDC00 <= v < 0xE000 ==> decoded(seq![u, v] + rest) == seq![
            (u * 0x400 + v - 0x35F_DC00) as char,
        ] + decoded(rest),
        0xDC00 <= u < 0xE000 ==> decoded(seq![u] + rest) == seq!['\u{FFFD}'] + decoded(rest),
        0xD800 <= u < 0xDC00 && !(0xDC00 <= v < 0xE000) ==> decoded(seq![u, v] + rest) == seq![
            '\u{FFFD}',
        ] + decoded(seq![v] + rest),
        0xD800 <= u < 0xDC00 ==> decoded(seq![u]) == seq!['\u{FFFD}'],
{
    let (one, two) = (seq![u] + rest, seq![u, v] + rest);
    assert(one.skip(1) =~= rest);
    assert(two.skip(1) =~= seq![v] + rest);
    assert(two.skip(2) =~= rest);
    assert(seq![u].skip(1) =~= Seq::<u16>::empty());
    assert(seq!['\u{FFFD}'] + decoded(Seq::<u16>::empty()) =~= seq!['\u{FFFD}']);
}

} // verus!
