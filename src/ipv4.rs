//! Dotted IPv4 addresses, as the stack's bind and connect calls take them.
use vstd::prelude::*;
use crate::lwip_error::LwipError;
use crate::net::octets_of;

verus! {

pub open spec fn is_dec(c: char) -> bool {
    '0' <= c <= '9'
}

pub open spec fn dec_char(d: nat) -> char {
    (('0' as nat) + d) as char
}

/// The decimal digits of `n`, without leading zeros.
pub open spec fn decimal(n: nat) -> Seq<char>
    decreases n,
{
    if n < 10 {
        seq![dec_char(n)]
    } else {
        decimal(n / 10).push(dec_char(n % 10))
    }
}

/// The dotted form of four octets.
pub open spec fn dotted(o: Seq<u8>) -> Seq<char> {
    decimal(o[0] as nat) + "."@ + decimal(o[1] as nat) + "."@ + decimal(o[2] as nat) + "."@
        + decimal(o[3] as nat)
}

/// At position `i` of `s` stands the decimal form of `v`, and no digit follows it.
pub open spec fn octet_at(s: Seq<char>, i: int, v: nat) -> bool {
    let e = i + decimal(v).len();
    &&& 0 <= i
    &&& e <= s.len()
    &&& s.subrange(i, e) == decimal(v)
    &&& (e == s.len() || !is_dec(s[e]))
}

proof fn lemma_decimal(v: nat)
    requires
        v < 256,
    ensures
        1 <= decimal(v).len() <= 3,
        forall|k: int| 0 <= k < decimal(v).len() ==> is_dec(#[trigger] decimal(v)[k]),
        decimal(v).len() == 1 <==> v < 10,
        decimal(v).len() == 2 <==> 10 <= v < 100,
        decimal(v).len() == 3 <==> 100 <= v,
        decimal(v).len() == 1 ==> decimal(v)[0] == dec_char(v),
        decimal(v).len() == 2 ==> decimal(v)[0] == dec_char(v / 10) && decimal(v)[1] == dec_char(
            v % 10,
        ),
        decimal(v).len() == 3 ==> decimal(v)[0] == dec_char(v / 100) && decimal(v)[1] == dec_char(
            v / 10 % 10,
        ) && decimal(v)[2] == dec_char(v % 10),
{
    if v >= 10 {
        assert(decimal(v) == decimal(v / 10).push(dec_char(v % 10)));
        if v / 10 >= 10 {
            assert(decimal(v / 10) == decimal(v / 10 / 10).push(dec_char(v / 10 % 10)));
            assert(v / 10 / 10 == v / 100);
            assert(decimal(v / 100) == seq![dec_char(v / 100)]);
        }
    }
}

/// Two octets' decimal forms at the same place are the same octet.
proof fn lemma_octet_unique(s: Seq<char>, i: int, v: nat, w: nat)
    requires
        v < 256,
        w < 256,
        octet_at(s, i, v),
        octet_at(s, i, w),
    ensures
        v == w,
{
    lemma_decimal(v);
    lemma_decimal(w);
    let lv = decimal(v).len() as int;
    let lw = decimal(w).len() as int;
    if lv < lw {
        assert(s[i + lv] == decimal(w)[lv]);
    } else if lw < lv {
        assert(s[i + lw] == decimal(v)[lw]);
    } else {
        assert(forall|k: int| 0 <= k < lv ==> decimal(v)[k] == s[i + k] && decimal(w)[k] == s[i + k]);
        if lv == 1 {
            assert(decimal(v)[0] == decimal(w)[0]);
        } else if lv == 2 {
            assert(decimal(v)[0] == decimal(w)[0] && decimal(v)[1] == decimal(w)[1]);
        } else {
            assert(decimal(v)[0] == decimal(w)[0] && decimal(v)[1] == decimal(w)[1] && decimal(v)[2]
                == decimal(w)[2]);
        }
    }
}

/// Where each octet of a dotted form starts.
proof fn lemma_dotted_parts(o: Seq<u8>)
    requires
        o.len() == 4,
    ensures
        ({
            let s = dotted(o);
            let l0 = decimal(o[0] as nat).len() as int;
            let l1 = decimal(o[1] as nat).len() as int;
            let l2 = decimal(o[2] as nat).len() as int;
            let l3 = decimal(o[3] as nat).len() as int;
            &&& octet_at(s, 0, o[0] as nat)
            &&& s[l0] == '.'
            &&& octet_at(s, l0 + 1, o[1] as nat)
            &&& s[l0 + 1 + l1] == '.'
            &&& octet_at(s, l0 + l1 + 2, o[2] as nat)
            &&& s[l0 + l1 + 2 + l2] == '.'
            &&& octet_at(s, l0 + l1 + l2 + 3, o[3] as nat)
            &&& s.len() == l0 + l1 + l2 + l3 + 3
        }),
{
    reveal_strlit(".");
    let s = dotted(o);
    let d0 = decimal(o[0] as nat);
    let d1 = decimal(o[1] as nat);
    let d2 = decimal(o[2] as nat);
    let d3 = decimal(o[3] as nat);
    lemma_decimal(o[0] as nat);
    lemma_decimal(o[1] as nat);
    lemma_decimal(o[2] as nat);
    lemma_decimal(o[3] as nat);
    let l0 = d0.len() as int;
    let l1 = d1.len() as int;
    let l2 = d2.len() as int;
    assert(s.subrange(0, l0) =~= d0);
    assert(s.subrange(l0 + 1, l0 + 1 + l1) =~= d1);
    assert(s.subrange(l0 + l1 + 2, l0 + l1 + 2 + l2) =~= d2);
    assert(s.subrange(l0 + l1 + l2 + 3, s.len() as int) =~= d3);
}

fn digit_run_end(s: &str, n: usize, i: usize) -> (j: usize)
    requires
        i <= n,
        n == s@.len(),
    ensures
        i <= j <= n,
        forall|k: int| i <= k < j ==> is_dec(#[trigger] s@[k]),
        j == n || !is_dec(s@[j as int]),
{
    let mut j = i;
    while j < n && '0' <= s.get_char(j) && s.get_char(j) <= '9'
        invariant
            i <= j <= n,
            n == s@.len(),
            forall|k: int| i <= k < j ==> is_dec(#[trigger] s@[k]),
        decreases n - j,
    {
        j = j + 1;
    }
    j
}

/// Reads the octet at position `i`: its value and the position after it.
fn read_octet(s: &str, n: usize, i: usize) -> (r: Option<(u8, usize)>)
    requires
        i <= n,
        n == s@.len(),
    ensures
        match r {
            Some((v, j)) => octet_at(s@, i as int, v as nat) && j == i + decimal(v as nat).len(),
            None => forall|v: u8| !octet_at(s@, i as int, v as nat),
        },
{
    let j = digit_run_end(s, n, i);
    let len = j - i;
    if len == 0 || len > 3 || (len > 1 && s.get_char(i) == '0') {
        proof {
            assert forall|v: u8| !octet_at(s@, i as int, v as nat) by {
                lemma_decimal(v as nat);
                let l = decimal(v as nat).len() as int;
                if octet_at(s@, i as int, v as nat) {
                    assert(forall|k: int| 0 <= k < l ==> s@[i + k] == decimal(v as nat)[k]);
                    if l < len {
                        assert(is_dec(s@[i + l]));
                    } else if len < l {
                        assert(is_dec(decimal(v as nat)[len as int]));
                    } else {
                        assert(decimal(v as nat)[0] == s@[i as int]);
                    }
                }
            }
        }
        return None;
    }
    let mut value: u32 = 0;
    let mut k = i;
    while k < j
        invariant
            i <= k <= j,
            j - i <= 3,
            j <= n,
            n == s@.len(),
            value < 1000,
            forall|m: int| i <= m < j ==> is_dec(#[trigger] s@[m]),
            k == i ==> value == 0,
            k == i + 1 ==> value == s@[i as int] as nat - '0' as nat,
            k == i + 2 ==> value == (s@[i as int] as nat - '0' as nat) * 10 + (s@[i + 1] as nat
                - '0' as nat),
            k == i + 3 ==> value == (s@[i as int] as nat - '0' as nat) * 100 + (s@[i + 1] as nat
                - '0' as nat) * 10 + (s@[i + 2] as nat - '0' as nat),
        decreases j - k,
    {
        let c = s.get_char(k);
        assert(is_dec(s@[k as int]));
        value = value * 10 + (c as u32 - '0' as u32);
        k = k + 1;
    }
    if value > 255 {
        proof {
            assert forall|v: u8| !octet_at(s@, i as int, v as nat) by {
                lemma_decimal(v as nat);
                let l = decimal(v as nat).len() as int;
                if octet_at(s@, i as int, v as nat) {
                    assert(forall|m: int| 0 <= m < l ==> s@[i + m] == decimal(v as nat)[m]);
                    if l < len {
                        assert(is_dec(s@[i + l]));
                    } else if len < l {
                        assert(is_dec(decimal(v as nat)[len as int]));
                    } else {
                        assert(s@[i as int] == decimal(v as nat)[0]);
                        assert(s@[i + 1] == decimal(v as nat)[1]);
                        assert(s@[i + 2] == decimal(v as nat)[2]);
                    }
                }
            }
        }
        return None;
    }
    let v = value as u8;
    proof {
        lemma_decimal(v as nat);
        let d = decimal(v as nat);
        if len == 1 {
            assert(s@.subrange(i as int, j as int) =~= d);
        } else if len == 2 {
            assert(s@[i as int] != '0');
            assert(s@.subrange(i as int, j as int) =~= d);
        } else {
            assert(s@[i as int] != '0');
            assert(s@.subrange(i as int, j as int) =~= d);
        }
    }
    Some((v, j))
}

/// Where octet `k` of the dotted form of `o` starts.
pub open spec fn part_start(o: Seq<u8>, k: int) -> int {
    let l0 = decimal(o[0] as nat).len() as int;
    let l1 = decimal(o[1] as nat).len() as int;
    let l2 = decimal(o[2] as nat).len() as int;
    if k == 0 {
        0
    } else if k == 1 {
        l0 + 1
    } else if k == 2 {
        l0 + l1 + 2
    } else {
        l0 + l1 + l2 + 3
    }
}

proof fn lemma_agree(o: Seq<u8>, k: int, v: u8)
    requires
        o.len() == 4,
        0 <= k < 4,
        octet_at(dotted(o), part_start(o, k), v as nat),
    ensures
        v == o[k],
        part_start(o, k) + decimal(v as nat).len() == (if k < 3 {
            part_start(o, k + 1) - 1
        } else {
            dotted(o).len() as int
        }),
        k < 3 ==> dotted(o)[part_start(o, k + 1) - 1] == '.',
{
    lemma_dotted_parts(o);
    lemma_octet_unique(dotted(o), part_start(o, k), o[k] as nat, v as nat);
}

/// Reads a dot and the octet after it.
fn read_dotted(s: &str, n: usize, i: usize) -> (r: Option<(u8, usize)>)
    requires
        i <= n,
        n == s@.len(),
    ensures
        match r {
            Some((v, j)) => i < n && s@[i as int] == '.' && octet_at(s@, i + 1, v as nat) && j == i
                + 1 + decimal(v as nat).len(),
            None => forall|v: u8|
                !(i < n && s@[i as int] == '.' && #[trigger] octet_at(s@, i + 1, v as nat)),
        },
{
    if i >= n || s.get_char(i) != '.' {
        return None;
    }
    read_octet(s, n, i + 1)
}

proof fn lemma_octets_value(a: u32, b: u32, c: u32, d: u32, v: u32)
    requires
        a < 256,
        b < 256,
        c < 256,
        d < 256,
        v == a + b * 256 + c * 65536 + d * 16777216,
    ensures
        v % 256 == a,
        v / 256 % 256 == b,
        v / 65536 % 256 == c,
        v / 16777216 == d,
{
    assert(v % 256 == a && v / 256 % 256 == b && v / 65536 % 256 == c && v / 16777216 == d)
        by (bit_vector)
        requires
            a < 256,
            b < 256,
            c < 256,
            d < 256,
            v == a + b * 256 + c * 65536 + d * 16777216,
    ;
}

/// The length of an octet's decimal form.
pub open spec fn dlen(v: u8) -> int {
    decimal(v as nat).len() as int
}

/// No dotted form has no octet where the first one should stand.
proof fn lemma_no_first(s: Seq<char>)
    requires
        forall|v: u8| !#[trigger] octet_at(s, 0, v as nat),
    ensures
        forall|o: Seq<u8>| o.len() == 4 ==> dotted(o) != s,
{
    assert forall|o: Seq<u8>| o.len() == 4 implies dotted(o) != s by {
        if dotted(o) == s {
            lemma_dotted_parts(o);
            assert(octet_at(s, 0, o[0] as nat));
        }
    }
}

/// No dotted form agrees with the `k` octets read, ending at `last`, and then lacks a dot
/// and an octet after them.
proof fn lemma_no_next(s: Seq<char>, vals: Seq<u8>, k: int, last: int)
    requires
        1 <= k <= 3,
        vals.len() == k,
        octet_at(s, 0, vals[0] as nat),
        k >= 2 ==> s[dlen(vals[0])] == '.' && octet_at(
            s,
            dlen(vals[0]) + 1,
            vals[1] as nat,
        ),
        k >= 3 ==> s[dlen(vals[0]) + 1 + dlen(vals[1])] == '.'
            && octet_at(
            s,
            dlen(vals[0]) + 1 + dlen(vals[1]) + 1,
            vals[2] as nat,
        ),
        last == (if k == 1 {
            dlen(vals[0])
        } else if k == 2 {
            dlen(vals[0]) + 1 + dlen(vals[1])
        } else {
            dlen(vals[0]) + 1 + dlen(vals[1]) + 1 + dlen(vals[2])
        }),
        forall|v: u8| !(last < s.len() && s[last] == '.' && #[trigger] octet_at(s, last + 1, v as nat)),
    ensures
        forall|o: Seq<u8>| o.len() == 4 ==> dotted(o) != s,
{
    assert forall|o: Seq<u8>| o.len() == 4 implies dotted(o) != s by {
        if dotted(o) == s {
            lemma_dotted_parts(o);
            lemma_agree(o, 0, vals[0]);
            if k >= 2 {
                lemma_agree(o, 1, vals[1]);
            }
            if k >= 3 {
                lemma_agree(o, 2, vals[2]);
            }
            assert(octet_at(s, last + 1, o[k] as nat));
        }
    }
}

proof fn lemma_dotted_read(
    s: Seq<char>,
    a: u8,
    b: u8,
    c: u8,
    d: u8,
    i1: int,
    i2: int,
    i3: int,
    i4: int,
)
    requires
        octet_at(s, 0, a as nat),
        i1 == decimal(a as nat).len(),
        i1 < s.len() && s[i1] == '.' && octet_at(s, i1 + 1, b as nat),
        i2 == i1 + 1 + decimal(b as nat).len(),
        i2 < s.len() && s[i2] == '.' && octet_at(s, i2 + 1, c as nat),
        i3 == i2 + 1 + decimal(c as nat).len(),
        i3 < s.len() && s[i3] == '.' && octet_at(s, i3 + 1, d as nat),
        i4 == i3 + 1 + decimal(d as nat).len(),
    ensures
        i4 == s.len() ==> s == dotted(seq![a, b, c, d]),
        i4 != s.len() ==> forall|p: Seq<u8>| p.len() == 4 ==> dotted(p) != s,
{
    reveal_strlit(".");
    let o = seq![a, b, c, d];
    if i4 == s.len() {
        assert(s =~= s.subrange(0, i1) + seq![s[i1]] + s.subrange(i1 + 1, i2) + seq![s[i2]]
            + s.subrange(i2 + 1, i3) + seq![s[i3]] + s.subrange(i3 + 1, i4));
        assert(seq![s[i1]] =~= "."@);
        assert(s =~= dotted(o));
    } else {
        assert forall|p: Seq<u8>| p.len() == 4 implies dotted(p) != s by {
            if dotted(p) == s {
                lemma_agree(p, 0, a);
                lemma_agree(p, 1, b);
                lemma_agree(p, 2, c);
                lemma_agree(p, 3, d);
            }
        }
    }
}

/// The stack's encoding of a dotted IPv4 address: four decimal octets without leading
/// zeros, separated by dots.
pub fn ip_addr_to_u32(addr: &str) -> (r: Result<u32, LwipError>)
    ensures
        match r {
            Ok(v) => dotted(octets_of(v)) == addr@,
            Err(e) => e == LwipError::IllegalArgument && forall|o: Seq<u8>|
                o.len() == 4 ==> dotted(o) != addr@,
        },
{
    let n = addr.unicode_len();
    let ghost s = addr@;
    let (a, i1) = match read_octet(addr, n, 0) {
        Some(x) => x,
        None => {
            proof {
                lemma_no_first(s);
            }
            return Err(LwipError::IllegalArgument);
        },
    };
    let (b, i2) = match read_dotted(addr, n, i1) {
        Some(x) => x,
        None => {
            proof {
                lemma_no_next(s, seq![a], 1, i1 as int);
            }
            return Err(LwipError::IllegalArgument);
        },
    };
    let (c, i3) = match read_dotted(addr, n, i2) {
        Some(x) => x,
        None => {
            proof {
                lemma_no_next(s, seq![a, b], 2, i2 as int);
            }
            return Err(LwipError::IllegalArgument);
        },
    };
    let (d, i4) = match read_dotted(addr, n, i3) {
        Some(x) => x,
        None => {
            proof {
                lemma_no_next(s, seq![a, b, c], 3, i3 as int);
            }
            return Err(LwipError::IllegalArgument);
        },
    };
    proof {
        lemma_dotted_read(s, a, b, c, d, i1 as int, i2 as int, i3 as int, i4 as int);
    }
    if i4 != n {
        return Err(LwipError::IllegalArgument);
    }
    let v = a as u32 + b as u32 * 256 + c as u32 * 65536 + d as u32 * 16777216;
    proof {
        lemma_octets_value(a as u32, b as u32, c as u32, d as u32, v);
        assert(octets_of(v) =~= seq![a, b, c, d]);
    }
    Ok(v)
}

} // verus!
