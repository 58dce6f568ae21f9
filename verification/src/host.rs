use vstd::prelude::*;
use vstd::string::StrSliceExecFns;

verus! {

/// What a connector destination's host text is: empty, a literal
/// address, or a name that wants resolution.
#[derive(Debug, Clone, Copy, PartialEq, Eq, Structural)]
pub enum HostClass {
    Empty,
    Ipv4Literal,
    Ipv6Literal,
    Named,
}

pub open spec fn is_digit(c: char) -> bool {
    48 <= c as u32 <= 57
}

pub open spec fn digit_val(c: char) -> int {
    c as u32 - 48
}

pub open spec fn is_hex_digit(c: char) -> bool {
    ||| 48 <= c as u32 <= 57
    ||| 97 <= c as u32 <= 102
    ||| 65 <= c as u32 <= 70
}

/// The index of the first occurrence of `sep`, or -1 when none.
pub open spec fn chr_idx(s: Seq<char>, sep: char) -> int
    decreases s.len(),
{
    if s.len() == 0 {
        -1
    } else if s[0] == sep {
        0
    } else {
        let r = chr_idx(s.drop_first(), sep);
        if r < 0 {
            -1
        } else {
            r + 1
        }
    }
}

/// The pieces of `s` between occurrences of `sep`: splitting keeps
/// empty pieces, and a string without `sep` is one piece.
pub open spec fn split_char_spec(s: Seq<char>, sep: char) -> Seq<Seq<char>>
    decreases s.len(),
{
    let idx = chr_idx(s, sep);
    if idx < 0 || idx >= s.len() {
        seq![s]
    } else {
        seq![s.take(idx)] + split_char_spec(s.skip(idx + 1), sep)
    }
}

proof fn lemma_chr_idx(s: Seq<char>, sep: char)
    ensures
        chr_idx(s, sep) == -1 ==> forall|k: int| 0 <= k < s.len() ==> s[k] != sep,
        chr_idx(s, sep) != -1 ==> {
            &&& 0 <= chr_idx(s, sep) < s.len()
            &&& s[chr_idx(s, sep)] == sep
            &&& forall|k: int| 0 <= k < chr_idx(s, sep) ==> s[k] != sep
        },
    decreases s.len(),
{
    if s.len() > 0 && s[0] != sep {
        lemma_chr_idx(s.drop_first(), sep);
        if chr_idx(s.drop_first(), sep) < 0 {
            assert forall|k: int| 0 <= k < s.len() implies s[k] != sep by {
                if k > 0 {
                    assert(s[k] == s.drop_first()[k - 1]);
                }
            }
        } else {
            assert(s[chr_idx(s, sep)] == s.drop_first()[chr_idx(s, sep) - 1]);
            assert forall|k: int| 0 <= k < chr_idx(s, sep) implies s[k] != sep by {
                if k > 0 {
                    assert(s[k] == s.drop_first()[k - 1]);
                }
            }
        }
    }
}

/// When everything before `i` differs from `sep` and position `i`
/// carries it, `i` is the first occurrence.
proof fn lemma_chr_idx_at(s: Seq<char>, sep: char, i: int)
    requires
        0 <= i < s.len(),
        s[i] == sep,
        forall|k: int| 0 <= k < i ==> s[k] != sep,
    ensures
        chr_idx(s, sep) == i,
    decreases i,
{
    if i > 0 {
        assert forall|k: int| 0 <= k < i - 1 implies s.drop_first()[k] != sep by {
            assert(s.drop_first()[k] == s[k + 1]);
        }
        assert(s.drop_first()[i - 1] == s[i]);
        lemma_chr_idx_at(s.drop_first(), sep, i - 1);
    }
}

/// When no character of `s` is `sep`, `s` splits into itself alone.
proof fn lemma_split_whole(s: Seq<char>, sep: char)
    requires
        forall|k: int| 0 <= k < s.len() ==> s[k] != sep,
    ensures
        split_char_spec(s, sep) == seq![s],
{
    if chr_idx(s, sep) >= 0 {
        lemma_chr_idx(s, sep);
    }
}

/// When the first `sep` of `s` stands at `i`, the split is the piece
/// before it followed by the split of what comes after it.
proof fn lemma_split_at(s: Seq<char>, sep: char, i: int)
    requires
        0 <= i < s.len(),
        s[i] == sep,
        forall|k: int| 0 <= k < i ==> s[k] != sep,
    ensures
        split_char_spec(s, sep) == seq![s.take(i)] + split_char_spec(s.skip(i + 1), sep),
{
    lemma_chr_idx_at(s, sep, i);
}

/// Split the characters of `s` at every occurrence of `sep`.
fn split_char(s: &Vec<char>, sep: char) -> (r: Vec<Vec<char>>)
    ensures
        r.deep_view() == split_char_spec(s@, sep),
{
    let mut r: Vec<Vec<char>> = Vec::new();
    let mut cur: Vec<char> = Vec::new();
    let mut start: usize = 0;
    let mut i: usize = 0;
    proof {
        assert(s@.skip(0) =~= s@);
        assert(cur@ =~= s@.subrange(0, 0));
        assert(r.deep_view() =~= Seq::<Seq<char>>::empty());
        assert(r.deep_view() + split_char_spec(s@, sep) =~= split_char_spec(s@, sep));
    }
    while i < s.len()
        invariant
            start <= i <= s@.len(),
            cur@ == s@.subrange(start as int, i as int),
            forall|k: int| start <= k < i ==> s@[k] != sep,
            split_char_spec(s@, sep) == r.deep_view() + split_char_spec(
                s@.skip(start as int),
                sep,
            ),
        decreases s@.len() - i,
    {
        let c = s[i];
        if c == sep {
            proof {
                let suf = s@.skip(start as int);
                assert forall|k: int| 0 <= k < i - start implies suf[k] != sep by {
                    assert(suf[k] == s@[start + k]);
                }
                assert(suf[i - start] == s@[i as int]);
                lemma_split_at(suf, sep, i - start);
                assert(suf.take(i - start) =~= cur@);
                assert(suf.skip(i - start + 1) =~= s@.skip(i + 1 as int));
                assert(r.deep_view().push(cur@) =~= r.deep_view() + seq![cur@]);
                assert((r.deep_view() + (seq![cur@] + split_char_spec(s@.skip(i + 1 as int), sep)))
                    =~= (r.deep_view() + seq![cur@]) + split_char_spec(
                    s@.skip(i + 1 as int),
                    sep,
                ));
            }
            let ghost old_dv = r.deep_view();
            let ghost cur_view = cur@;
            r.push(cur);
            cur = Vec::new();
            start = i + 1;
            proof {
                assert(cur@ =~= s@.subrange(start as int, i + 1 as int));
                assert(r.deep_view() =~~= old_dv + seq![cur_view]);
            }
        } else {
            cur.push(c);
            proof {
                assert(cur@ =~= s@.subrange(start as int, i + 1 as int));
            }
        }
        i = i + 1;
    }
    proof {
        let suf = s@.skip(start as int);
        assert forall|k: int| 0 <= k < suf.len() implies suf[k] != sep by {
            assert(suf[k] == s@[start + k]);
        }
        lemma_split_whole(suf, sep);
        assert(suf =~= cur@);
    }
    let ghost old_dv = r.deep_view();
    let ghost cur_view = cur@;
    r.push(cur);
    proof {
        assert(r.deep_view() =~~= old_dv + seq![cur_view]);
        assert(old_dv + seq![cur_view] =~= split_char_spec(s@, sep));
    }
    r
}

/// A decimal octet as an IPv4 literal writes it: one to three digits,
/// no leading zero, value at most 255.
pub open spec fn is_dec_octet(s: Seq<char>) -> bool {
    &&& 1 <= s.len() <= 3
    &&& forall|k: int| 0 <= k < s.len() ==> is_digit(#[trigger] s[k])
    &&& (s.len() > 1 ==> s[0] != '0')
    &&& octet_val(s) <= 255
}

pub open spec fn octet_val(s: Seq<char>) -> int {
    if s.len() == 1 {
        digit_val(s[0])
    } else if s.len() == 2 {
        10 * digit_val(s[0]) + digit_val(s[1])
    } else {
        100 * digit_val(s[0]) + 10 * digit_val(s[1]) + digit_val(s[2])
    }
}

/// An IPv4 address literal: four decimal octets joined by dots.
pub open spec fn is_ipv4_literal_spec(s: Seq<char>) -> bool {
    let parts = split_char_spec(s, '.');
    &&& parts.len() == 4
    &&& forall|k: int| 0 <= k < 4 ==> is_dec_octet(#[trigger] parts[k])
}

/// A group of an IPv6 literal: one to four hexadecimal digits.
pub open spec fn is_hex_group(s: Seq<char>) -> bool {
    &&& 1 <= s.len() <= 4
    &&& forall|k: int| 0 <= k < s.len() ==> is_hex_digit(#[trigger] s[k])
}

/// The pieces `parts[from..to]` close an IPv6 literal: each a hex
/// group, except that the final piece may be an embedded IPv4
/// literal.
pub open spec fn is_ipv6_tail(parts: Seq<Seq<char>>, from: int, to: int) -> bool {
    &&& forall|k: int| from <= k < to - 1 ==> is_hex_group(#[trigger] parts[k])
    &&& (from < to ==> is_hex_group(parts[to - 1]) || is_ipv4_literal_spec(parts[to - 1]))
}

/// How many 16-bit groups `parts[from..to]` stand for: an embedded
/// IPv4 literal at the end counts as two.
pub open spec fn group_count(parts: Seq<Seq<char>>, from: int, to: int) -> int {
    if from >= to {
        0
    } else if is_ipv4_literal_spec(parts[to - 1]) {
        to - from + 1
    } else {
        to - from
    }
}

/// An IPv6 address literal, written as its colon-separated pieces:
/// either eight groups in full, or a single `::` elision standing for
/// the missing groups.  An elision shows up in the pieces as empty
/// pieces: two leading, two trailing, or one in the middle.
pub open spec fn ipv6_parts_ok(parts: Seq<Seq<char>>) -> bool {
    let n = parts.len() as int;
    if forall|k: int| 0 <= k < n ==> (#[trigger] parts[k]).len() > 0 {
        // no elision: exactly eight groups
        is_ipv6_tail(parts, 0, n) && group_count(parts, 0, n) == 8
    } else if n == 3 && parts[0].len() == 0 && parts[1].len() == 0 && parts[2].len() == 0 {
        // "::" alone
        true
    } else if n >= 3 && parts[0].len() == 0 && parts[1].len() == 0 {
        // leading "::"
        &&& forall|k: int| 2 <= k < n ==> (#[trigger] parts[k]).len() > 0
        &&& is_ipv6_tail(parts, 2, n)
        &&& group_count(parts, 2, n) <= 7
    } else if n >= 3 && parts[n - 1].len() == 0 && parts[n - 2].len() == 0 {
        // trailing "::"
        &&& forall|k: int| 0 <= k < n - 2 ==> (#[trigger] parts[k]).len() > 0
        &&& forall|k: int| 0 <= k < n - 2 ==> is_hex_group(#[trigger] parts[k])
        &&& group_count(parts, 0, n - 2) <= 7
    } else {
        // "a::b": exactly one empty piece, somewhere in the middle
        exists|p: int|
            {
                &&& 0 < p < n - 1
                &&& (#[trigger] parts[p]).len() == 0
                &&& forall|k: int| 0 <= k < n && k != p ==> (#[trigger] parts[k]).len() > 0
                &&& forall|k: int| 0 <= k < p ==> is_hex_group(#[trigger] parts[k])
                &&& is_ipv6_tail(parts, p + 1, n)
                &&& group_count(parts, 0, p) + group_count(parts, p + 1, n) <= 7
            }
    }
}

/// An IPv6 address literal.
pub open spec fn is_ipv6_literal_spec(s: Seq<char>) -> bool {
    ipv6_parts_ok(split_char_spec(s, ':'))
}

/// What a host string is: empty, an IPv4 literal, an IPv6 literal, or
/// a name.
pub open spec fn host_class_spec(s: Seq<char>) -> HostClass {
    if s.len() == 0 {
        HostClass::Empty
    } else if is_ipv4_literal_spec(s) {
        HostClass::Ipv4Literal
    } else if is_ipv6_literal_spec(s) {
        HostClass::Ipv6Literal
    } else {
        HostClass::Named
    }
}

/// The characters of `s`, one by one.
pub fn chars_of(s: &str) -> (r: Vec<char>)
    ensures
        r@ == s@,
{
    let n = s.unicode_len();
    let mut r: Vec<char> = Vec::new();
    let mut i: usize = 0;
    while i < n
        invariant
            n == s@.len(),
            i <= n,
            r@ == s@.subrange(0, i as int),
        decreases n - i,
    {
        r.push(s.get_char(i));
        proof {
            assert(r@ =~= s@.subrange(0, i + 1 as int));
        }
        i = i + 1;
    }
    proof {
        assert(r@ =~= s@);
    }
    r
}

fn is_digit_exec(c: char) -> (r: bool)
    ensures
        r == is_digit(c),
{
    let n = c as u32;
    48 <= n && n <= 57
}

fn is_hex_digit_exec(c: char) -> (r: bool)
    ensures
        r == is_hex_digit(c),
{
    let n = c as u32;
    (48 <= n && n <= 57) || (97 <= n && n <= 102) || (65 <= n && n <= 70)
}

fn check_dec_octet(part: &Vec<char>) -> (r: bool)
    ensures
        r == is_dec_octet(part@),
{
    let n = part.len();
    if n < 1 || n > 3 {
        return false;
    }
    let mut k: usize = 0;
    while k < n
        invariant
            n == part@.len(),
            k <= n,
            forall|j: int| 0 <= j < k ==> is_digit(#[trigger] part@[j]),
        decreases n - k,
    {
        if !is_digit_exec(part[k]) {
            return false;
        }
        k = k + 1;
    }
    if n > 1 && part[0] == '0' {
        return false;
    }
    let val: u32 = if n == 1 {
        part[0] as u32 - 48
    } else if n == 2 {
        10 * (part[0] as u32 - 48) + (part[1] as u32 - 48)
    } else {
        100 * (part[0] as u32 - 48) + 10 * (part[1] as u32 - 48) + (part[2] as u32 - 48)
    };
    val <= 255
}

fn check_hex_group(part: &Vec<char>) -> (r: bool)
    ensures
        r == is_hex_group(part@),
{
    let n = part.len();
    if n < 1 || n > 4 {
        return false;
    }
    let mut k: usize = 0;
    while k < n
        invariant
            n == part@.len(),
            k <= n,
            forall|j: int| 0 <= j < k ==> is_hex_digit(#[trigger] part@[j]),
        decreases n - k,
    {
        if !is_hex_digit_exec(part[k]) {
            return false;
        }
        k = k + 1;
    }
    true
}

#[verifier::loop_isolation(false)]
fn check_ipv4_chars(chars: &Vec<char>) -> (r: bool)
    ensures
        r == is_ipv4_literal_spec(chars@),
{
    let parts = split_char(chars, '.');
    proof {
        assert(parts.deep_view().len() == parts@.len());
    }
    if parts.len() != 4 {
        return false;
    }
    let mut k: usize = 0;
    while k < 4
        invariant
            parts.deep_view() == split_char_spec(chars@, '.'),
            parts@.len() == 4,
            k <= 4,
            forall|j: int| 0 <= j < k ==> is_dec_octet(#[trigger] parts.deep_view()[j]),
        decreases 4 - k,
    {
        proof {
            assert(parts.deep_view()[k as int] =~= parts@[k as int]@);
        }
        if !check_dec_octet(&parts[k]) {
            return false;
        }
        k = k + 1;
    }
    true
}

/// The pieces `parts[from..to]` checked as an IPv6 tail, with their
/// group count.
fn check_tail(parts: &Vec<Vec<char>>, from: usize, to: usize) -> (r: Option<u128>)
    requires
        from <= to <= parts@.len(),
    ensures
        match r {
            Some(count) => is_ipv6_tail(parts.deep_view(), from as int, to as int) && count
                == group_count(parts.deep_view(), from as int, to as int),
            None => !is_ipv6_tail(parts.deep_view(), from as int, to as int),
        },
{
    if from >= to {
        return Some(0);
    }
    proof {
        assert(parts.deep_view().len() == parts@.len());
    }
    let mut k: usize = from;
    while k < to - 1
        invariant
            from <= k <= to - 1,
            to <= parts@.len(),
            forall|j: int| from <= j < k ==> is_hex_group(#[trigger] parts.deep_view()[j]),
        decreases to - k,
    {
        if !check_hex_group(&parts[k]) {
            proof {
                assert(parts.deep_view()[k as int] =~= parts@[k as int]@);
            }
            return None;
        }
        proof {
            assert(parts.deep_view()[k as int] =~= parts@[k as int]@);
        }
        k = k + 1;
    }
    proof {
        assert(parts.deep_view()[to - 1] =~= parts@[to - 1]@);
    }
    if check_hex_group(&parts[to - 1]) {
        proof {
            assert(!is_ipv4_literal_spec(parts.deep_view()[to - 1])) by {
                if is_ipv4_literal_spec(parts.deep_view()[to - 1]) {
                    let sub = parts.deep_view()[to - 1];
                    let dots = split_char_spec(sub, '.');
                    lemma_chr_idx(sub, '.');
                    if chr_idx(sub, '.') < 0 {
                        assert(dots == seq![sub]);
                        assert(dots.len() == 1);
                    } else {
                        let idx = chr_idx(sub, '.');
                        assert(sub[idx] == '.');
                        assert(is_hex_group(sub));
                        assert(is_hex_digit(sub[idx]));
                    }
                }
            }
        }
        Some((to - from) as u128)
    } else if check_ipv4_chars(&parts[to - 1]) {
        Some((to - from) as u128 + 1)
    } else {
        None
    }
}

/// Classify a host string: empty, an IPv4 or IPv6 address literal, or
/// a name that wants resolution.
pub fn classify_host(host: &str) -> (r: HostClass)
    ensures
        r == host_class_spec(host@),
{
    let chars = chars_of(host);
    if chars.len() == 0 {
        return HostClass::Empty;
    }
    if check_ipv4_chars(&chars) {
        return HostClass::Ipv4Literal;
    }
    if check_ipv6_chars(&chars) {
        return HostClass::Ipv6Literal;
    }
    HostClass::Named
}

#[verifier::loop_isolation(false)]
fn check_ipv6_chars(chars: &Vec<char>) -> (r: bool)
    ensures
        r == is_ipv6_literal_spec(chars@),
{
    let parts = split_char(chars, ':');
    let ghost pv = parts.deep_view();
    let n = parts.len();
    assert(n == pv.len());

    // look for the first empty piece
    let mut first_empty: usize = n;
    let mut k: usize = 0;
    while k < n
        invariant
            k <= n,
            n == pv.len(),
            pv == parts.deep_view(),
            first_empty <= n,
            first_empty == n ==> forall|j: int| 0 <= j < k ==> (#[trigger] pv[j]).len() > 0,
            first_empty < n ==> first_empty < k && pv[first_empty as int].len() == 0 && (forall|
                j: int,
            |
                0 <= j < first_empty ==> (#[trigger] pv[j]).len() > 0),
        decreases n - k,
    {
        proof {
            assert(pv[k as int] =~= parts@[k as int]@);
        }
        if parts[k].len() == 0 && first_empty == n {
            first_empty = k;
        }
        k = k + 1;
    }

    if first_empty == n {
        // no elision: exactly eight groups
        return match check_tail(&parts, 0, n) {
            Some(count) => count == 8,
            None => false,
        };
    }
    proof {
        assert(pv[first_empty as int].len() == 0);
        assert(!(forall|j: int| 0 <= j < n ==> (#[trigger] pv[j]).len() > 0));
    }
    if n >= 3 {
        let e0 = piece_is_empty(&parts, 0);
        let e1 = piece_is_empty(&parts, 1);
        let elast = piece_is_empty(&parts, n - 1);
        let elast2 = piece_is_empty(&parts, n - 2);
        let e2 = piece_is_empty(&parts, 2);
        if n == 3 && e0 && e1 && e2 {
            // "::" alone
            return true;
        }
        if e0 && e1 {
            // leading "::"
            return match check_tail(&parts, 2, n) {
                Some(count) => {
                    proof {
                        if count <= 7 {
                            assert(is_ipv6_tail(pv, 2, n as int));
                            assert forall|j: int| 2 <= j < n implies (#[trigger] pv[j]).len()
                                > 0 by {
                                if j < n - 1 {
                                    assert(is_hex_group(pv[j]));
                                } else {
                                    if is_ipv4_literal_spec(pv[j]) {
                                        lemma_ipv4_nonempty(pv[j]);
                                    }
                                }
                            }
                        }
                    }
                    count <= 7
                },
                None => false,
            };
        }
        if elast && elast2 {
            // trailing "::"
            let mut j: usize = 0;
            while j < n - 2
                invariant
                    j <= n - 2,
                    n == pv.len(),
                    n >= 3,
                    pv == parts.deep_view(),
                    forall|i: int| 0 <= i < j ==> is_hex_group(#[trigger] pv[i]),
                decreases n - 2 - j,
            {
                proof {
                    assert(pv[j as int] =~= parts@[j as int]@);
                }
                if !check_hex_group(&parts[j]) {
                    return false;
                }
                j = j + 1;
            }
            proof {
                assert forall|i: int| 0 <= i < n - 2 implies (#[trigger] pv[i]).len() > 0 by {
                    assert(is_hex_group(pv[i]));
                }
                if n - 2 > 0 {
                    lemma_hex_not_ipv4(pv[n - 3]);
                }
            }
            return n - 2 <= 7;
        }
    }

    // "a::b": a single empty piece strictly inside
    let p = first_empty;
    proof {
        lemma_split_len(chars@, ':');
    }
    if n < 3 || p == 0 || p >= n - 1 {
        proof {
            lemma_edge_reject(pv, p as int);
        }
        return false;
    }
    let mut j: usize = 0;
    while j < n
        invariant
            j <= n,
            n == pv.len(),
            n >= 3,
            0 < p < n - 1,
            pv == parts.deep_view(),
            pv[p as int].len() == 0,
            forall|i: int| 0 <= i < j && i != p ==> (#[trigger] pv[i]).len() > 0,
        decreases n - j,
    {
        proof {
            assert(pv[j as int] =~= parts@[j as int]@);
        }
        if j != p && parts[j].len() == 0 {
            proof {
                lemma_two_empties_reject(pv, p as int, j as int);
            }
            return false;
        }
        j = j + 1;
    }
    let mut j: usize = 0;
    while j < p
        invariant
            j <= p,
            0 < p < n - 1,
            n == pv.len(),
            pv == parts.deep_view(),
            pv[p as int].len() == 0,
            forall|i: int| 0 <= i < n && i != p ==> (#[trigger] pv[i]).len() > 0,
            forall|i: int| 0 <= i < j ==> is_hex_group(#[trigger] pv[i]),
        decreases p - j,
    {
        proof {
            assert(pv[j as int] =~= parts@[j as int]@);
        }
        if !check_hex_group(&parts[j]) {
            proof {
                lemma_middle_body_reject(pv, p as int);
            }
            return false;
        }
        j = j + 1;
    }
    match check_tail(&parts, p + 1, n) {
        Some(count) => {
            proof {
                lemma_hex_not_ipv4(pv[p - 1]);
            }
            let total_ok = (p as u128) + count <= 7;
            proof {
                if total_ok {
                    assert(ipv6_parts_ok(pv)) by {
                        assert(group_count(pv, 0, p as int) == p);
                        assert(!(forall|i: int| 0 <= i < n ==> (#[trigger] pv[i]).len() > 0));
                    }
                } else {
                    lemma_middle_body_reject(pv, p as int);
                }
            }
            total_ok
        },
        None => {
            proof {
                lemma_middle_body_reject(pv, p as int);
            }
            false
        },
    }
}

/// A split has at least one piece.
proof fn lemma_split_len(s: Seq<char>, sep: char)
    ensures
        split_char_spec(s, sep).len() >= 1,
    decreases s.len(),
{
    let idx = chr_idx(s, sep);
    if !(idx < 0 || idx >= s.len()) {
        lemma_split_len(s.skip(idx + 1), sep);
    }
}

/// An empty piece at the edge, or too few pieces, outside every other
/// elision pattern: no IPv6 literal.
proof fn lemma_edge_reject(pv: Seq<Seq<char>>, p: int)
    requires
        pv.len() >= 1,
        0 <= p < pv.len(),
        pv[p].len() == 0,
        pv.len() >= 3 ==> !(pv.len() == 3 && pv[0].len() == 0 && pv[1].len() == 0 && pv[2].len()
            == 0),
        pv.len() >= 3 ==> !(pv[0].len() == 0 && pv[1].len() == 0),
        pv.len() >= 3 ==> !(pv[pv.len() - 1].len() == 0 && pv[pv.len() - 2].len() == 0),
        pv.len() < 3 || p == 0 || p >= pv.len() - 1,
    ensures
        !ipv6_parts_ok(pv),
{
    let n = pv.len() as int;
    if ipv6_parts_ok(pv) {
        assert(!(forall|k: int| 0 <= k < n ==> (#[trigger] pv[k]).len() > 0));
        if n < 3 {
            assert(false);
        } else {
            let q = choose|q: int|
                {
                    &&& 0 < q < n - 1
                    &&& (#[trigger] pv[q]).len() == 0
                    &&& forall|j: int| 0 <= j < n && j != q ==> (#[trigger] pv[j]).len() > 0
                };
            assert(q == p);
        }
    }
}

fn piece_is_empty(parts: &Vec<Vec<char>>, i: usize) -> (r: bool)
    requires
        i < parts@.len(),
    ensures
        r == (parts.deep_view()[i as int].len() == 0),
{
    proof {
        assert(parts.deep_view()[i as int] =~= parts@[i as int]@);
    }
    parts[i].len() == 0
}

/// An IPv4 literal is never the empty string.
proof fn lemma_ipv4_nonempty(s: Seq<char>)
    requires
        is_ipv4_literal_spec(s),
    ensures
        s.len() > 0,
{
    if s.len() == 0 {
        lemma_chr_idx(s, '.');
        assert(split_char_spec(s, '.') == seq![s]);
    }
}

/// A hex group holds no dot, so it is no IPv4 literal.
proof fn lemma_hex_not_ipv4(s: Seq<char>)
    requires
        is_hex_group(s),
    ensures
        !is_ipv4_literal_spec(s),
{
    if is_ipv4_literal_spec(s) {
        lemma_chr_idx(s, '.');
        if chr_idx(s, '.') < 0 {
            assert(split_char_spec(s, '.') == seq![s]);
        } else {
            assert(s[chr_idx(s, '.')] == '.');
            assert(is_hex_digit(s[chr_idx(s, '.')]));
        }
    }
}

/// The facts the middle-elision branch of `ipv6_parts_ok` grants its
/// witness force the witness to be the one empty piece.
proof fn lemma_middle_witness(pv: Seq<Seq<char>>, p: int) -> (q: int)
    requires
        0 <= p < pv.len(),
        pv[p].len() == 0,
        !(pv.len() == 3 && pv[0].len() == 0 && pv[1].len() == 0 && pv[2].len() == 0),
        !(pv.len() >= 3 && pv[0].len() == 0 && pv[1].len() == 0),
        !(pv.len() >= 3 && pv[pv.len() - 1].len() == 0 && pv[pv.len() - 2].len() == 0),
        ipv6_parts_ok(pv),
    ensures
        q == p,
        0 < q < pv.len() - 1,
        forall|j: int| 0 <= j < pv.len() && j != q ==> (#[trigger] pv[j]).len() > 0,
        forall|j: int| 0 <= j < q ==> is_hex_group(#[trigger] pv[j]),
        is_ipv6_tail(pv, q + 1, pv.len() as int),
        group_count(pv, 0, q) + group_count(pv, q + 1, pv.len() as int) <= 7,
{
    let n = pv.len() as int;
    assert(!(forall|k: int| 0 <= k < n ==> (#[trigger] pv[k]).len() > 0));
    let q = choose|q: int|
        {
            &&& 0 < q < n - 1
            &&& (#[trigger] pv[q]).len() == 0
            &&& forall|j: int| 0 <= j < n && j != q ==> (#[trigger] pv[j]).len() > 0
            &&& forall|j: int| 0 <= j < q ==> is_hex_group(#[trigger] pv[j])
            &&& is_ipv6_tail(pv, q + 1, n)
            &&& group_count(pv, 0, q) + group_count(pv, q + 1, n) <= 7
        };
    assert(q == p);
    q
}

/// An empty piece at the very edge, outside every elision pattern,
/// makes the pieces no IPv6 literal.
proof fn lemma_middle_reject(pv: Seq<Seq<char>>, p: int)
    requires
        0 <= p < pv.len(),
        pv[p].len() == 0,
        forall|j: int| 0 <= j < p ==> (#[trigger] pv[j]).len() > 0,
        !(pv.len() == 3 && pv[0].len() == 0 && pv[1].len() == 0 && pv[2].len() == 0),
        !(pv.len() >= 3 && pv[0].len() == 0 && pv[1].len() == 0),
        !(pv.len() >= 3 && pv[pv.len() - 1].len() == 0 && pv[pv.len() - 2].len() == 0),
        p == 0 || p >= pv.len() - 1,
    ensures
        !ipv6_parts_ok(pv),
{
    if ipv6_parts_ok(pv) {
        let q = lemma_middle_witness(pv, p);
    }
}

/// Two distinct empty pieces, outside every other elision pattern,
/// make the pieces no IPv6 literal.
proof fn lemma_two_empties_reject(pv: Seq<Seq<char>>, p: int, p2: int)
    requires
        0 <= p < pv.len(),
        0 <= p2 < pv.len(),
        p != p2,
        pv[p].len() == 0,
        pv[p2].len() == 0,
        !(pv.len() == 3 && pv[0].len() == 0 && pv[1].len() == 0 && pv[2].len() == 0),
        !(pv.len() >= 3 && pv[0].len() == 0 && pv[1].len() == 0),
        !(pv.len() >= 3 && pv[pv.len() - 1].len() == 0 && pv[pv.len() - 2].len() == 0),
    ensures
        !ipv6_parts_ok(pv),
{
    if ipv6_parts_ok(pv) {
        let q = lemma_middle_witness(pv, p);
        assert(pv[p2].len() > 0);
    }
}

/// A middle elision whose head or tail fails its checks makes the
/// pieces no IPv6 literal.
proof fn lemma_middle_body_reject(pv: Seq<Seq<char>>, p: int)
    requires
        0 < p < pv.len() - 1,
        pv[p].len() == 0,
        !(pv.len() == 3 && pv[0].len() == 0 && pv[1].len() == 0 && pv[2].len() == 0),
        !(pv.len() >= 3 && pv[0].len() == 0 && pv[1].len() == 0),
        !(pv.len() >= 3 && pv[pv.len() - 1].len() == 0 && pv[pv.len() - 2].len() == 0),
        (!(forall|j: int| 0 <= j < p ==> is_hex_group(#[trigger] pv[j])) || !is_ipv6_tail(
            pv,
            p + 1,
            pv.len() as int,
        ) || group_count(pv, 0, p) + group_count(pv, p + 1, pv.len() as int) > 7),
    ensures
        !ipv6_parts_ok(pv),
{
    if ipv6_parts_ok(pv) {
        let q = lemma_middle_witness(pv, p);
        if !(forall|j: int| 0 <= j < p ==> is_hex_group(#[trigger] pv[j])) {
        } else if !is_ipv6_tail(pv, p + 1, pv.len() as int) {
        } else {
            assert(group_count(pv, 0, q) == group_count(pv, 0, p));
        }
    }
}

} // verus!
