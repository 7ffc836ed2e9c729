//! Byte-level text helpers shared by the mnemonic table and the assembler.
use vstd::prelude::*;

verus! {

/// Whether two byte strings are equal.
pub fn same_bytes(a: &[u8], b: &[u8]) -> (r: bool)
    ensures
        r == (a@ == b@),
{
    if a.len() != b.len() {
        return false;
    }
    let mut i: usize = 0;
    while i < a.len()
        invariant
            i <= a@.len(),
            a@.len() == b@.len(),
            forall|k: int| 0 <= k < i ==> a@[k] == b@[k],
        decreases a@.len() - i,
    {
        if a[i] != b[i] {
            return false;
        }
        i = i + 1;
    }
    assert(a@ =~= b@);
    true
}


/// The line feed that ends a line.
pub const NEWLINE: u8 = 10;

/// Space, tab and carriage return separate tokens.
pub open spec fn is_space(c: u8) -> bool {
    c == 32 || c == 9 || c == 13
}

/// The views of a sequence of byte vectors.
pub open spec fn views(v: Seq<Vec<u8>>) -> Seq<Seq<u8>> {
    v.map_values(|b: Vec<u8>| b@)
}

/// The index of the first line feed in `s` at or after `from`, or the length
/// of `s` when there is none.
pub open spec fn line_end(s: Seq<u8>, from: int) -> int
    decreases s.len() - from,
{
    if from >= s.len() {
        s.len() as int
    } else if s[from] == NEWLINE {
        from
    } else {
        line_end(s, from + 1)
    }
}

/// Whether a comment marker `//` starts at index `i` of `l`.
pub open spec fn comment_at(l: Seq<u8>, i: int) -> bool {
    0 <= i && i + 1 < l.len() && l[i] == 47 && l[i + 1] == 47
}

/// The index of the first comment marker in `l` at or after `from`, or the
/// length of `l` when there is none.
pub open spec fn comment_start(l: Seq<u8>, from: int) -> int
    decreases l.len() - from,
{
    if from + 1 >= l.len() {
        l.len() as int
    } else if comment_at(l, from) {
        from
    } else {
        comment_start(l, from + 1)
    }
}

/// A line without its comment: what precedes the first `//`.
pub open spec fn code_part(l: Seq<u8>) -> Seq<u8> {
    l.take(comment_start(l, 0))
}

/// The tokens of `l`: its maximal runs of bytes other than white space, in
/// order.
pub open spec fn tokens(l: Seq<u8>) -> Seq<Seq<u8>>
    decreases l.len(),
{
    if l.len() == 0 {
        seq![]
    } else {
        let before = tokens(l.drop_last());
        let c = l.last();
        if is_space(c) {
            before
        } else if l.len() > 1 && !is_space(l[l.len() - 2]) {
            before.update(before.len() - 1, before.last().push(c))
        } else {
            before.push(seq![c])
        }
    }
}

/// The tokens of a line with its comment removed.
pub open spec fn line_tokens(l: Seq<u8>) -> Seq<Seq<u8>> {
    tokens(code_part(l))
}

/// Whether `c` is a digit in base `radix` (10 or 16; hexadecimal digits in
/// either case).
pub open spec fn is_digit(c: u8, radix: nat) -> bool {
    (48 <= c <= 57) || (radix == 16 && ((97 <= c <= 102) || (65 <= c <= 70)))
}

/// The value of a digit.
pub open spec fn digit_value(c: u8) -> nat {
    if 48 <= c <= 57 {
        (c - 48) as nat
    } else if 97 <= c <= 102 {
        (c - 87) as nat
    } else {
        (c - 55) as nat
    }
}

/// The value of a string of digits in base `radix`.
pub open spec fn numeral_value(t: Seq<u8>, radix: nat) -> nat
    decreases t.len(),
{
    if t.len() == 0 {
        0
    } else {
        numeral_value(t.drop_last(), radix) * radix + digit_value(t.last())
    }
}

/// The byte that `t` writes in base `radix`: `t` is one or more digits and
/// its value is at most 255.
pub open spec fn numeral_byte(t: Seq<u8>, radix: nat) -> Option<u8> {
    if t.len() > 0 && (forall|i: int| 0 <= i < t.len() ==> is_digit(#[trigger] t[i], radix))
        && numeral_value(t, radix) <= 255 {
        Some(numeral_value(t, radix) as u8)
    } else {
        None
    }
}

/// A longer string of digits is worth at least as much as its prefix.
proof fn lemma_numeral_grows(t: Seq<u8>, radix: nat, i: int)
    requires
        0 <= i <= t.len(),
        radix >= 1,
    ensures
        numeral_value(t.take(i), radix) <= numeral_value(t, radix),
    decreases t.len() - i,
{
    if i < t.len() {
        lemma_numeral_grows(t, radix, i + 1);
        let p = t.take(i + 1);
        assert(p.drop_last() =~= t.take(i));
        assert(numeral_value(p, radix) == numeral_value(t.take(i), radix) * radix + digit_value(
            p.last(),
        ));
        assert(numeral_value(t.take(i), radix) * radix >= numeral_value(t.take(i), radix))
            by (nonlinear_arith)
            requires
                radix >= 1,
        ;
    } else {
        assert(t.take(i) =~= t);
    }
}

/// The bytes of `s` from `from` up to `to`, copied.
pub fn copy_range(s: &[u8], from: usize, to: usize) -> (r: Vec<u8>)
    requires
        from <= to <= s@.len(),
    ensures
        r@ == s@.subrange(from as int, to as int),
{
    let mut r: Vec<u8> = Vec::new();
    let mut i: usize = from;
    while i < to
        invariant
            from <= i <= to,
            to <= s@.len(),
            r@ == s@.subrange(from as int, i as int),
        decreases to - i,
    {
        r.push(s[i]);
        i = i + 1;
        assert(r@ =~= s@.subrange(from as int, i as int));
    }
    r
}

/// The index of the first line feed at or after `from`, or the length.
pub fn find_line_end(s: &[u8], from: usize) -> (r: usize)
    requires
        from <= s@.len(),
    ensures
        r == line_end(s@, from as int),
        from <= r <= s@.len(),
{
    let mut i: usize = from;
    while i < s.len() && s[i] != NEWLINE
        invariant
            from <= i <= s@.len(),
            line_end(s@, from as int) == line_end(s@, i as int),
        decreases s@.len() - i,
    {
        i = i + 1;
    }
    i
}

/// A line with its comment removed.
pub fn strip_comment(l: &[u8]) -> (r: Vec<u8>)
    ensures
        r@ == code_part(l@),
{
    let mut i: usize = 0;
    while i < l.len() && i + 1 < l.len() && !(l[i] == 47 && l[i + 1] == 47)
        invariant
            i <= l@.len(),
            comment_start(l@, 0) == comment_start(l@, i as int),
        decreases l@.len() - i,
    {
        i = i + 1;
    }
    let end = if i < l.len() && i + 1 < l.len() {
        i
    } else {
        l.len()
    };
    copy_range(l, 0, end)
}

/// Whether a byte separates tokens.
pub fn is_space_byte(c: u8) -> (r: bool)
    ensures
        r == is_space(c),
{
    c == 32 || c == 9 || c == 13
}

/// The tokens of `l`.
pub fn tokenize(l: &[u8]) -> (r: Vec<Vec<u8>>)
    ensures
        views(r@) == tokens(l@),
{
    let mut toks: Vec<Vec<u8>> = Vec::new();
    let mut cur: Vec<u8> = Vec::new();
    let mut i: usize = 0;
    while i < l.len()
        invariant
            i <= l@.len(),
            cur@.len() > 0 <==> (i > 0 && !is_space(l@[i - 1])),
            tokens(l@.take(i as int)) == if cur@.len() > 0 {
                views(toks@).push(cur@)
            } else {
                views(toks@)
            },
        decreases l@.len() - i,
    {
        let c = l[i];
        let ghost next = l@.take(i + 1);
        let ghost before = tokens(l@.take(i as int));
        let ghost cur_before = cur@;
        proof {
            assert(next.drop_last() =~= l@.take(i as int));
            assert(next.last() == c);
            if i > 0 {
                assert(next[next.len() - 2] == l@[i - 1]);
            }
        }
        if is_space_byte(c) {
            if cur.len() > 0 {
                let ghost prev = toks@;
                let done = cur;
                cur = Vec::new();
                toks.push(done);
                assert(views(toks@) =~= views(prev).push(done@));
            }
        } else {
            cur.push(c);
            proof {
                if cur_before.len() > 0 {
                    assert(before.update(before.len() - 1, before.last().push(c)) =~= views(
                        toks@,
                    ).push(cur@));
                } else {
                    assert(cur@ =~= seq![c]);
                }
            }
        }
        i = i + 1;
    }
    if cur.len() > 0 {
        let ghost prev = toks@;
        let ghost last = cur@;
        toks.push(cur);
        assert(views(toks@) =~= views(prev).push(last));
    }
    proof {
        assert(l@.take(l@.len() as int) =~= l@);
    }
    toks
}

/// Parses a numeral in base `radix` (10 or 16) into a byte.
pub fn parse_numeral(t: &[u8], radix: u8) -> (r: Option<u8>)
    requires
        radix == 10 || radix == 16,
    ensures
        r == numeral_byte(t@, radix as nat),
{
    if t.len() == 0 {
        return None;
    }
    let mut value: u32 = 0;
    let mut i: usize = 0;
    while i < t.len()
        invariant
            i <= t@.len(),
            radix == 10 || radix == 16,
            value <= 255,
            value == numeral_value(t@.take(i as int), radix as nat),
            forall|k: int| 0 <= k < i ==> is_digit(#[trigger] t@[k], radix as nat),
        decreases t@.len() - i,
    {
        let c = t[i];
        let d: u32 = if 48 <= c && c <= 57 {
            (c - 48) as u32
        } else if radix == 16 && 97 <= c && c <= 102 {
            (c - 87) as u32
        } else if radix == 16 && 65 <= c && c <= 70 {
            (c - 55) as u32
        } else {
            return None;
        };
        proof {
            assert(t@.take(i + 1).drop_last() =~= t@.take(i as int));
        }
        assert(value * (radix as u32) <= 255 * 16) by (nonlinear_arith)
            requires
                value <= 255,
                radix <= 16,
        ;
        value = value * (radix as u32) + d;
        i = i + 1;
        if value > 255 {
            proof {
                lemma_numeral_grows(t@, radix as nat, i as int);
            }
            return None;
        }
    }
    proof {
        assert(t@.take(i as int) =~= t@);
    }
    Some(value as u8)
}

/// A source line reduced to its tokens: the comment removed, then the rest
/// split at white space.
pub fn clean_source(line: &[u8]) -> (r: Vec<Vec<u8>>)
    ensures
        views(r@) == line_tokens(line@),
{
    let stripped = strip_comment(line);
    tokenize(stripped.as_slice())
}

} // verus!
