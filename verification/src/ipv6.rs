//! A verified recogniser for textual IPv6 literals.
//!
//! The grammar is the usual one: eight colon-separated groups of one to four
//! hexadecimal digits; a single `::` may stand for one or more zero groups;
//! the last one or two groups may instead be a dotted-quad IPv4 address whose
//! octets are written without leading zeros.

use vstd::prelude::*;
use vstd::slice::slice_subrange;

verus! {

/// A hexadecimal digit, either case.
pub open spec fn is_hex_digit(c: char) -> bool {
    (48 <= c as u32 && c as u32 <= 57) || (97 <= c as u32 && c as u32 <= 102) || (65 <= c as u32
        && c as u32 <= 70)
}

/// A decimal digit.
pub open spec fn is_dec_digit(c: char) -> bool {
    48 <= c as u32 && c as u32 <= 57
}

/// The numeric value of a decimal digit string.
pub open spec fn dec_value(s: Seq<char>) -> int
    decreases s.len(),
{
    if s.len() == 0 {
        0
    } else {
        dec_value(s.drop_last()) * 10 + (s.last() as u32 - 48)
    }
}

/// One octet of a dotted-quad IPv4 address: one to three decimal digits,
/// no leading zero, value at most 255.
pub open spec fn is_dec_octet(s: Seq<char>) -> bool {
    &&& 1 <= s.len() <= 3
    &&& (forall|i: int| 0 <= i < s.len() ==> is_dec_digit(#[trigger] s[i]))
    &&& (s.len() > 1 ==> s[0] != '0')
    &&& dec_value(s) <= 255
}

/// One group of an IPv6 address: one to four hexadecimal digits.
pub open spec fn is_h16(s: Seq<char>) -> bool {
    &&& 1 <= s.len() <= 4
    &&& (forall|i: int| 0 <= i < s.len() ==> is_hex_digit(#[trigger] s[i]))
}

/// The pieces of `s` between occurrences of `sep`; splitting the empty
/// sequence yields one empty piece, and every separator ends a piece.
pub open spec fn split_on(s: Seq<char>, sep: char) -> Seq<Seq<char>>
    decreases s.len(),
{
    if s.len() == 0 {
        seq![Seq::<char>::empty()]
    } else {
        let rest = split_on(s.drop_first(), sep);
        if s[0] == sep {
            seq![Seq::<char>::empty()] + rest
        } else {
            seq![seq![s[0]] + rest[0]] + rest.drop_first()
        }
    }
}

/// The position of the first `::` in `s`, if any.
pub open spec fn find_dcolon(s: Seq<char>) -> Option<int>
    decreases s.len(),
{
    if s.len() < 2 {
        None
    } else if s[0] == ':' && s[1] == ':' {
        Some(0int)
    } else {
        match find_dcolon(s.drop_first()) {
            None => None,
            Some(i) => Some(i + 1),
        }
    }
}

/// Every piece is nonempty.
pub open spec fn all_parts_nonempty(ps: Seq<Seq<char>>) -> bool {
    forall|i: int| 0 <= i < ps.len() ==> (#[trigger] ps[i]).len() > 0
}

/// Every piece is a hexadecimal group.
pub open spec fn all_h16(ps: Seq<Seq<char>>) -> bool {
    forall|i: int| 0 <= i < ps.len() ==> is_h16(#[trigger] ps[i])
}

/// A dotted-quad IPv4 address.
pub open spec fn is_ipv4(s: Seq<char>) -> bool {
    let ps = split_on(s, '.');
    &&& ps.len() == 4
    &&& (forall|i: int| 0 <= i < ps.len() ==> is_dec_octet(#[trigger] ps[i]))
}

/// Pieces acceptable at the end of an address: all groups, or groups
/// followed by one trailing IPv4 address.
pub open spec fn tail_pieces_ok(ps: Seq<Seq<char>>) -> bool {
    all_h16(ps) || (ps.len() >= 1 && all_h16(ps.drop_last()) && is_ipv4(ps.last()))
}

/// How many 16-bit groups the pieces stand for; an IPv4 tail counts as two.
pub open spec fn tail_units(ps: Seq<Seq<char>>) -> int {
    if ps.len() >= 1 && is_ipv4(ps.last()) {
        ps.len() + 1int
    } else {
        ps.len() as int
    }
}

/// The part before a `::`: empty, or nonempty colon-separated groups.
pub open spec fn head_ok(h: Seq<char>) -> bool {
    h.len() == 0 || {
        let ps = split_on(h, ':');
        all_parts_nonempty(ps) && all_h16(ps)
    }
}

/// Group count of the part before a `::`.
pub open spec fn head_groups(h: Seq<char>) -> int {
    if h.len() == 0 {
        0
    } else {
        split_on(h, ':').len() as int
    }
}

/// The part after a `::`: empty, or nonempty colon-separated pieces whose
/// last may be an IPv4 address.
pub open spec fn tail_ok(t: Seq<char>) -> bool {
    t.len() == 0 || {
        let ps = split_on(t, ':');
        all_parts_nonempty(ps) && tail_pieces_ok(ps)
    }
}

/// Group count of the part after a `::`.
pub open spec fn tail_groups(t: Seq<char>) -> int {
    if t.len() == 0 {
        0
    } else {
        tail_units(split_on(t, ':'))
    }
}

/// A textual IPv6 address: either the full eight-group form, or a
/// compressed form around the first `::`, which stands for the groups that
/// the written ones leave out, so at most seven may be written.
pub open spec fn is_ipv6_literal(s: Seq<char>) -> bool {
    match find_dcolon(s) {
        None => {
            let ps = split_on(s, ':');
            all_parts_nonempty(ps) && tail_pieces_ok(ps) && tail_units(ps) == 8
        },
        Some(i) => {
            let head = s.take(i);
            let tail = s.skip(i + 2);
            head_ok(head) && tail_ok(tail) && head_groups(head) + tail_groups(tail) <= 7
        },
    }
}

/// Splitting always yields at least one piece.
pub proof fn lemma_split_on_len(s: Seq<char>, sep: char)
    ensures
        split_on(s, sep).len() >= 1,
    decreases s.len(),
{
    if s.len() > 0 {
        lemma_split_on_len(s.drop_first(), sep);
    }
}

/// A sequence without the separator splits into itself alone.
pub proof fn lemma_split_no_sep(s: Seq<char>, sep: char)
    requires
        forall|i: int| 0 <= i < s.len() ==> s[i] != sep,
    ensures
        split_on(s, sep) =~= seq![s],
    decreases s.len(),
{
    if s.len() > 0 {
        lemma_split_no_sep(s.drop_first(), sep);
        assert(seq![s[0]] + s.drop_first() =~= s);
    } else {
        assert(s =~= Seq::<char>::empty());
    }
}

/// A hexadecimal group contains no dot, so it is no IPv4 address.
pub proof fn lemma_h16_not_ipv4(s: Seq<char>)
    requires
        is_h16(s),
    ensures
        !is_ipv4(s),
{
    assert forall|i: int| 0 <= i < s.len() implies s[i] != '.' by {
        assert(is_hex_digit(s[i]));
    }
    lemma_split_no_sep(s, '.');
}

/// Whether `c` is a hexadecimal digit.
fn hex_digit(c: char) -> (r: bool)
    ensures
        r == is_hex_digit(c),
{
    let u = c as u32;
    (48 <= u && u <= 57) || (97 <= u && u <= 102) || (65 <= u && u <= 70)
}

/// Whether `p` is a hexadecimal group of one to four digits.
fn check_h16(p: &[char]) -> (r: bool)
    ensures
        r == is_h16(p@),
{
    let n = p.len();
    if n < 1 || n > 4 {
        return false;
    }
    let mut i: usize = 0;
    while i < n
        invariant
            n == p@.len(),
            i <= n,
            forall|j: int| 0 <= j < i ==> is_hex_digit(#[trigger] p@[j]),
        decreases n - i,
    {
        if !hex_digit(p[i]) {
            return false;
        }
        i = i + 1;
    }
    true
}

/// Whether `p` is one decimal octet of an IPv4 address.
fn check_dec_octet(p: &[char]) -> (r: bool)
    ensures
        r == is_dec_octet(p@),
{
    let n = p.len();
    if n < 1 || n > 3 {
        return false;
    }
    if n > 1 && p[0] == '0' {
        return false;
    }
    let mut value: u32 = 0;
    let mut i: usize = 0;
    while i < n
        invariant
            n == p@.len(),
            n <= 3,
            i <= n,
            forall|j: int| 0 <= j < i ==> is_dec_digit(#[trigger] p@[j]),
            value == dec_value(p@.take(i as int)),
            i == 0 ==> value == 0,
            i == 1 ==> value <= 9,
            i == 2 ==> value <= 99,
            i == 3 ==> value <= 999,
        decreases n - i,
    {
        let u = p[i] as u32;
        if u < 48 || u > 57 {
            return false;
        }
        value = value * 10 + (u - 48);
        assert(p@.take(i + 1).drop_last() =~= p@.take(i as int));
        assert(p@.take(i + 1).last() == p@[i as int]);
        i = i + 1;
    }
    assert(p@.take(n as int) =~= p@);
    value <= 255
}

/// Whether `p` is a dotted-quad IPv4 address.
fn check_ipv4(p: &[char]) -> (r: bool)
    ensures
        r == is_ipv4(p@),
{
    let parts = split_chars(p, '.');
    if parts.len() != 4 {
        return false;
    }
    let mut i: usize = 0;
    while i < 4
        invariant
            parts@.map_values(|q: Vec<char>| q@) == split_on(p@, '.'),
            parts@.len() == 4,
            i <= 4,
            forall|j: int|
                0 <= j < i ==> is_dec_octet(#[trigger] split_on(p@, '.')[j]),
        decreases 4 - i,
    {
        if !check_dec_octet(parts[i].as_slice()) {
            assert(!is_dec_octet(split_on(p@, '.')[i as int]));
            return false;
        }
        assert(is_dec_octet(split_on(p@, '.')[i as int]));
        i = i + 1;
    }
    true
}

/// A found `::` lies wholly inside the sequence.
pub proof fn lemma_find_dcolon_some(s: Seq<char>)
    ensures
        match find_dcolon(s) {
            Some(i) => 0 <= i && i + 2 <= s.len() && s[i] == ':' && s[i + 1] == ':',
            None => true,
        },
    decreases s.len(),
{
    if s.len() >= 2 && !(s[0] == ':' && s[1] == ':') {
        lemma_find_dcolon_some(s.drop_first());
    }
}

/// An IPv4 address is never the empty sequence.
pub proof fn lemma_ipv4_nonempty(s: Seq<char>)
    requires
        is_ipv4(s),
    ensures
        s.len() > 0,
{
    if s.len() == 0 {
        assert(s =~= Seq::<char>::empty());
        assert(split_on(s, '.').len() == 1);
    }
}

/// The first piece extended at the front, the rest unchanged.
pub open spec fn prepend_first(p: Seq<char>, ps: Seq<Seq<char>>) -> Seq<Seq<char>> {
    seq![p + ps[0]] + ps.drop_first()
}

/// Split `s` at every occurrence of `sep`.
fn split_chars(s: &[char], sep: char) -> (parts: Vec<Vec<char>>)
    ensures
        parts@.map_values(|q: Vec<char>| q@) == split_on(s@, sep),
        parts@.len() >= 1,
{
    let ghost whole = s@;
    let n = s.len();
    let mut parts: Vec<Vec<char>> = Vec::new();
    let mut cur: Vec<char> = Vec::new();
    let mut i: usize = 0;
    proof {
        lemma_split_on_len(whole, sep);
        assert(whole.skip(0) =~= whole);
        assert(prepend_first(cur@, split_on(whole, sep)) =~= split_on(whole, sep));
    }
    while i < n
        invariant
            n == whole.len(),
            whole == s@,
            i <= n,
            split_on(whole, sep) == parts@.map_values(|q: Vec<char>| q@) + prepend_first(
                cur@,
                split_on(whole.skip(i as int), sep),
            ),
        decreases n - i,
    {
        let c = s[i];
        let ghost parts0 = parts@.map_values(|q: Vec<char>| q@);
        let ghost cur0 = cur@;
        let ghost rest = split_on(whole.skip(i + 1), sep);
        proof {
            lemma_split_on_len(whole.skip(i + 1), sep);
            assert(whole.skip(i as int).drop_first() =~= whole.skip(i + 1));
            assert(whole.skip(i as int)[0] == whole[i as int]);
            assert(whole.skip(i as int).len() > 0);
        }
        if c == sep {
            proof {
                assert(split_on(whole.skip(i as int), sep) == seq![Seq::<char>::empty()] + rest);
                assert(prepend_first(cur0, seq![Seq::<char>::empty()] + rest) =~= seq![cur0]
                    + rest);
                assert(prepend_first(Seq::<char>::empty(), rest) =~= rest);
            }
            let done = cur;
            parts.push(done);
            cur = Vec::new();
            proof {
                assert(parts@.map_values(|q: Vec<char>| q@) =~= parts0.push(cur0));
                assert(parts0.push(cur0) + prepend_first(cur@, rest) =~= parts0 + (seq![cur0]
                    + rest));
            }
        } else {
            proof {
                assert(split_on(whole.skip(i as int), sep) == seq![seq![whole[i as int]] + rest[0]]
                    + rest.drop_first());
                assert(cur0 + (seq![whole[i as int]] + rest[0]) =~= cur0.push(whole[i as int])
                    + rest[0]);
                assert(prepend_first(cur0, split_on(whole.skip(i as int), sep)) =~= prepend_first(
                    cur0.push(whole[i as int]),
                    rest,
                ));
            }
            cur.push(c);
        }
        i = i + 1;
    }
    proof {
        assert(whole.skip(n as int) =~= Seq::<char>::empty());
        assert(split_on(Seq::<char>::empty(), sep) == seq![Seq::<char>::empty()]);
        assert(prepend_first(cur@, seq![Seq::<char>::empty()]) =~= seq![cur@]);
    }
    let ghost parts0 = parts@.map_values(|q: Vec<char>| q@);
    let ghost cur0 = cur@;
    parts.push(cur);
    proof {
        assert(parts@.map_values(|q: Vec<char>| q@) =~= parts0.push(cur0));
        assert(parts0.push(cur0) =~= parts0 + seq![cur0]);
    }
    parts
}

/// The position of the first `::` in `s`, if any.
fn find_dcolon_chars(s: &[char]) -> (r: Option<usize>)
    ensures
        match r {
            Some(i) => find_dcolon(s@) == Some(i as int),
            None => find_dcolon(s@) is None,
        },
{
    let n = s.len();
    if n < 2 {
        return None;
    }
    let mut i: usize = 0;
    proof {
        assert(s@.skip(0) =~= s@);
    }
    while i < n - 1
        invariant
            n == s@.len(),
            2 <= n,
            i <= n - 1,
            match find_dcolon(s@.skip(i as int)) {
                None => find_dcolon(s@) is None,
                Some(j) => find_dcolon(s@) == Some(i + j),
            },
        decreases n - i,
    {
        proof {
            assert(s@.skip(i as int).drop_first() =~= s@.skip(i + 1));
            assert(s@.skip(i as int)[0] == s@[i as int]);
            assert(s@.skip(i as int)[1] == s@[i + 1]);
        }
        if s[i] == ':' && s[i + 1] == ':' {
            return Some(i);
        }
        i = i + 1;
    }
    proof {
        assert(s@.skip(i as int).len() < 2);
    }
    None
}

/// Whether pieces `from` to `to` of `parts` are all hexadecimal groups.
fn all_h16_range(parts: &Vec<Vec<char>>, from: usize, to: usize) -> (r: bool)
    requires
        from <= to <= parts@.len(),
    ensures
        r == (forall|j: int| from <= j < to ==> is_h16((#[trigger] parts@[j])@)),
{
    let mut i: usize = from;
    while i < to
        invariant
            from <= i <= to <= parts@.len(),
            forall|j: int| from <= j < i ==> is_h16((#[trigger] parts@[j])@),
        decreases to - i,
    {
        if !check_h16(parts[i].as_slice()) {
            return false;
        }
        i = i + 1;
    }
    true
}

/// Whether the given pieces, with a possible IPv4 tail, are well-formed and
/// stand for exactly eight groups: the uncompressed form of an address.
fn check_full_pieces(parts: &Vec<Vec<char>>) -> (r: bool)
    requires
        parts@.len() >= 1,
    ensures
        r == ({
            let ps = parts@.map_values(|q: Vec<char>| q@);
            all_parts_nonempty(ps) && tail_pieces_ok(ps) && tail_units(ps) == 8
        }),
{
    let ghost ps = parts@.map_values(|q: Vec<char>| q@);
    let k = parts.len();
    proof {
        assert forall|j: int| 0 <= j < ps.len() implies #[trigger] ps[j] == parts@[j]@ by {}
    }
    if all_h16_range(&parts, 0, k) {
        proof {
            assert forall|j: int| 0 <= j < ps.len() implies is_h16(#[trigger] ps[j]) by {
                assert(is_h16(parts@[j]@));
            }
            assert(all_parts_nonempty(ps));
            lemma_h16_not_ipv4(ps.last());
            assert(tail_units(ps) == k as int);
        }
        k == 8
    } else {
        proof {
            if all_h16(ps) {
                assert forall|j: int| 0 <= j < k implies is_h16((#[trigger] parts@[j])@) by {
                    assert(is_h16(ps[j]));
                }
                assert(false);
            }
        }
        let v4 = check_ipv4(parts[k - 1].as_slice());
        let front = all_h16_range(&parts, 0, k - 1);
        if v4 && front {
            proof {
                assert(ps.last() == parts@[k - 1]@);
                assert(is_ipv4(ps.last()));
                lemma_ipv4_nonempty(ps.last());
                assert forall|j: int|
                    0 <= j < ps.drop_last().len() implies is_h16(
                    #[trigger] ps.drop_last()[j],
                ) by {
                    assert(ps.drop_last()[j] == ps[j]);
                    assert(is_h16(parts@[j]@));
                }
                assert(tail_pieces_ok(ps));
                assert forall|j: int| 0 <= j < ps.len() implies (#[trigger] ps[j]).len() > 0 by {
                    if j < k - 1 {
                        assert(is_h16(parts@[j]@));
                    }
                }
                assert(all_parts_nonempty(ps));
                assert(tail_units(ps) == k + 1);
            }
            k == 7
        } else {
            proof {
                if tail_pieces_ok(ps) {
                    if all_h16(ps) {
                        assert forall|j: int| 0 <= j < k implies is_h16(
                            (#[trigger] parts@[j])@,
                        ) by {
                            assert(is_h16(ps[j]));
                        }
                        assert(false);
                    } else {
                        assert(all_h16(ps.drop_last()));
                        assert(ps.last() == parts@[k - 1]@);
                        assert forall|j: int| 0 <= j < k - 1 implies is_h16(
                            (#[trigger] parts@[j])@,
                        ) by {
                            assert(ps.drop_last()[j] == ps[j]);
                            assert(is_h16(ps.drop_last()[j]));
                        }
                        assert(false);
                    }
                }
            }
            false
        }
    }
}

/// Check the part before a `::`; yields its validity and group count.
fn check_head(h: &[char]) -> (r: (bool, usize))
    ensures
        r.0 == head_ok(h@),
        r.0 ==> r.1 as int == head_groups(h@),
{
    if h.len() == 0 {
        return (true, 0);
    }
    let parts = split_chars(h, ':');
    let ghost ps = parts@.map_values(|q: Vec<char>| q@);
    proof {
        assert forall|j: int| 0 <= j < ps.len() implies #[trigger] ps[j] == parts@[j]@ by {}
    }
    let k = parts.len();
    let ok = all_h16_range(&parts, 0, k);
    proof {
        if ok {
            assert forall|j: int| 0 <= j < ps.len() implies is_h16(#[trigger] ps[j]) by {
                assert(is_h16(parts@[j]@));
            }
            assert(all_parts_nonempty(ps));
        } else {
            if head_ok(h@) {
                assert(all_h16(ps));
                assert forall|j: int| 0 <= j < k implies is_h16((#[trigger] parts@[j])@) by {
                    assert(is_h16(ps[j]));
                }
                assert(false);
            }
        }
    }
    (ok, k)
}

/// Check the part after a `::`; yields its validity and group count,
/// saturated at eight since anything above seven already disqualifies.
fn check_tail(t: &[char]) -> (r: (bool, usize))
    ensures
        r.0 == tail_ok(t@),
        r.0 ==> ((tail_groups(t@) <= 8 && r.1 as int == tail_groups(t@)) || (tail_groups(t@) > 8
            && r.1 == 8)),
{
    if t.len() == 0 {
        return (true, 0);
    }
    let parts = split_chars(t, ':');
    let ghost ps = parts@.map_values(|q: Vec<char>| q@);
    proof {
        assert forall|j: int| 0 <= j < ps.len() implies #[trigger] ps[j] == parts@[j]@ by {}
    }
    let k = parts.len();
    if all_h16_range(&parts, 0, k) {
        proof {
            assert forall|j: int| 0 <= j < ps.len() implies is_h16(#[trigger] ps[j]) by {
                assert(is_h16(parts@[j]@));
            }
            assert(all_parts_nonempty(ps));
            lemma_h16_not_ipv4(ps.last());
            assert(tail_units(ps) == k as int);
        }
        if k >= 8 {
            (true, 8)
        } else {
            (true, k)
        }
    } else {
        proof {
            if all_h16(ps) {
                assert forall|j: int| 0 <= j < k implies is_h16((#[trigger] parts@[j])@) by {
                    assert(is_h16(ps[j]));
                }
                assert(false);
            }
        }
        let v4 = check_ipv4(parts[k - 1].as_slice());
        let front = all_h16_range(&parts, 0, k - 1);
        if v4 && front {
            proof {
                assert(ps.last() == parts@[k - 1]@);
                assert(is_ipv4(ps.last()));
                lemma_ipv4_nonempty(ps.last());
                assert forall|j: int|
                    0 <= j < ps.drop_last().len() implies is_h16(
                    #[trigger] ps.drop_last()[j],
                ) by {
                    assert(ps.drop_last()[j] == ps[j]);
                    assert(is_h16(parts@[j]@));
                }
                assert(tail_pieces_ok(ps));
                assert forall|j: int| 0 <= j < ps.len() implies (#[trigger] ps[j]).len() > 0 by {
                    if j < k - 1 {
                        assert(is_h16(parts@[j]@));
                    }
                }
                assert(all_parts_nonempty(ps));
                assert(tail_units(ps) == k + 1);
            }
            if k >= 7 {
                (true, 8)
            } else {
                (true, k + 1)
            }
        } else {
            proof {
                if tail_pieces_ok(ps) {
                    if all_h16(ps) {
                        assert forall|j: int| 0 <= j < k implies is_h16(
                            (#[trigger] parts@[j])@,
                        ) by {
                            assert(is_h16(ps[j]));
                        }
                        assert(false);
                    } else {
                        assert(all_h16(ps.drop_last()));
                        assert(ps.last() == parts@[k - 1]@);
                        assert forall|j: int| 0 <= j < k - 1 implies is_h16(
                            (#[trigger] parts@[j])@,
                        ) by {
                            assert(ps.drop_last()[j] == ps[j]);
                            assert(is_h16(ps.drop_last()[j]));
                        }
                        assert(false);
                    }
                }
            }
            (false, 0)
        }
    }
}

/// Whether the characters form a textual IPv6 address.
pub fn is_ipv6_addr(s: &[char]) -> (r: bool)
    ensures
        r == is_ipv6_literal(s@),
{
    match find_dcolon_chars(s) {
        None => {
            let parts = split_chars(s, ':');
            check_full_pieces(&parts)
        },
        Some(i) => {
            proof {
                lemma_find_dcolon_some(s@);
                assert(i + 2 <= s@.len());
            }
            let n = s.len();
            let head = slice_subrange(s, 0, i);
            let tail = slice_subrange(s, i + 2, n);
            proof {
                assert(head@ =~= s@.take(i as int));
                assert(tail@ =~= s@.skip(i + 2));
            }
            let (head_is_ok, hg) = check_head(head);
            if !head_is_ok {
                return false;
            }
            let (tail_is_ok, tg) = check_tail(tail);
            if !tail_is_ok {
                return false;
            }
            hg <= 7 && tg <= 7 && hg + tg <= 7
        },
    }
}

} // verus!
