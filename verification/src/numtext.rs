use vstd::prelude::*;
use vstd::string::StrSliceExecFns;
use vstd::string::StringExecFns;

verus! {

// Decimal text for the numeric fields of the wire protocol. Every number
// crosses the wire in its canonical decimal form: at least one digit, no
// leading zero unless the number is zero, a single leading '-' for a
// negative value. Canonical forms make the printing functions injective,
// which is what the envelope and record codecs build their exactness on.

pub open spec fn is_digit_char(c: char) -> bool {
    '0' <= c && c <= '9'
}

pub open spec fn digit_val(c: char) -> nat
    recommends
        is_digit_char(c),
{
    (c as nat - '0' as nat) as nat
}

pub open spec fn char_of_digit(d: nat) -> char
    recommends
        d < 10,
{
    if d == 0 {
        '0'
    } else if d == 1 {
        '1'
    } else if d == 2 {
        '2'
    } else if d == 3 {
        '3'
    } else if d == 4 {
        '4'
    } else if d == 5 {
        '5'
    } else if d == 6 {
        '6'
    } else if d == 7 {
        '7'
    } else if d == 8 {
        '8'
    } else {
        '9'
    }
}

/// The canonical decimal digits of `n`, most significant first.
pub open spec fn dec_rep(n: nat) -> Seq<char>
    decreases n,
{
    if n < 10 {
        seq![char_of_digit(n)]
    } else {
        dec_rep(n / 10).push(char_of_digit(n % 10))
    }
}

/// The number a sequence of digit characters denotes.
pub open spec fn dec_val(s: Seq<char>) -> nat
    decreases s.len(),
{
    if s.len() == 0 {
        0
    } else {
        dec_val(s.drop_last()) * 10 + digit_val(s.last())
    }
}

/// Digit text as `dec_rep` produces it: nonempty, all digits, and without a
/// leading zero except for "0" itself.
pub open spec fn is_canonical_dec(s: Seq<char>) -> bool {
    &&& s.len() >= 1
    &&& forall|i: int| 0 <= i < s.len() ==> is_digit_char(#[trigger] s[i])
    &&& s.len() > 1 ==> s[0] != '0'
}

pub proof fn lemma_dec_rep_props(n: nat)
    ensures
        is_canonical_dec(dec_rep(n)),
        dec_val(dec_rep(n)) == n,
        n == 0 <==> dec_rep(n) == seq!['0'],
        n > 0 ==> dec_rep(n)[0] != '0',
    decreases n,
{
    if n < 10 {
        let s = dec_rep(n);
        assert(s == seq![char_of_digit(n)]);
        assert(s.drop_last() =~= Seq::<char>::empty());
        assert(dec_val(Seq::<char>::empty()) == 0);
        assert(s.last() == char_of_digit(n));
        assert(digit_val(char_of_digit(n)) == n);
        assert(dec_val(s) == dec_val(s.drop_last()) * 10 + digit_val(s.last()));
        if n == 0 {
            assert(dec_rep(n) =~= seq!['0']);
        } else {
            assert(dec_rep(n)[0] == char_of_digit(n));
            assert(char_of_digit(n) != '0');
            assert(dec_rep(n) != seq!['0']) by {
                assert(dec_rep(n)[0] != (seq!['0'])[0]);
            }
        }
    } else {
        lemma_dec_rep_props(n / 10);
        let p = dec_rep(n / 10);
        let s = dec_rep(n);
        assert(s == p.push(char_of_digit(n % 10)));
        assert(s.drop_last() =~= p);
        assert(s.last() == char_of_digit(n % 10));
        assert(digit_val(char_of_digit(n % 10)) == n % 10);
        assert(dec_val(s) == (n / 10) * 10 + n % 10);
        assert((n / 10) * 10 + n % 10 == n) by (nonlinear_arith);
        assert(s[0] == p[0]);
        assert(n / 10 > 0);
        assert(s[0] != '0');
        assert(s != seq!['0']) by {
            assert(s.len() > 1);
        }
    }
}

/// Canonical digit text is exactly what `dec_rep` prints for its value.
pub proof fn lemma_canonical_dec_rep(s: Seq<char>)
    requires
        is_canonical_dec(s),
    ensures
        dec_rep(dec_val(s)) == s,
        dec_val(s) <= 9 <==> s.len() == 1,
    decreases s.len(),
{
    if s.len() == 1 {
        let d = digit_val(s[0]);
        assert(d < 10);
        assert(s.drop_last() =~= Seq::<char>::empty());
        assert(dec_val(Seq::<char>::empty()) == 0);
        assert(s.last() == s[0]);
        assert(dec_val(s) == dec_val(s.drop_last()) * 10 + digit_val(s.last()));
        assert(dec_val(s) == d);
        assert(char_of_digit(d) == s[0]);
        assert(dec_rep(d) =~= s);
    } else {
        let p = s.drop_last();
        let d = digit_val(s.last());
        assert(forall|i: int| 0 <= i < p.len() ==> is_digit_char(#[trigger] p[i]));
        assert(p[0] == s[0]);
        assert(is_canonical_dec(p));
        lemma_canonical_dec_rep(p);
        lemma_nonzero_lead_val(p);
        assert(dec_val(p) >= 1);
        let v = dec_val(s);
        assert(v == dec_val(p) * 10 + d);
        assert(v >= 10 && v / 10 == dec_val(p) && v % 10 == d) by (nonlinear_arith)
            requires
                v == dec_val(p) * 10 + d,
                dec_val(p) >= 1,
                d < 10,
        ;
        assert(dec_rep(v) == dec_rep(dec_val(p)).push(char_of_digit(d)));
        assert(char_of_digit(d) == s.last());
        assert(dec_rep(v) =~= s);
    }
}

/// Digit text that does not start with '0' denotes a positive number.
proof fn lemma_nonzero_lead_val(s: Seq<char>)
    requires
        s.len() >= 1,
        forall|i: int| 0 <= i < s.len() ==> is_digit_char(#[trigger] s[i]),
        s[0] != '0',
    ensures
        dec_val(s) >= 1,
    decreases s.len(),
{
    if s.len() == 1 {
        assert(digit_val(s[0]) >= 1);
    } else {
        let p = s.drop_last();
        assert(p[0] == s[0]);
        lemma_nonzero_lead_val(p);
        assert(dec_val(p) * 10 >= 10) by (nonlinear_arith)
            requires
                dec_val(p) >= 1,
        ;
    }
}

/// Two numbers with the same canonical decimal text are the same number.
pub proof fn lemma_dec_rep_injective(a: nat, b: nat)
    requires
        dec_rep(a) == dec_rep(b),
    ensures
        a == b,
{
    lemma_dec_rep_props(a);
    lemma_dec_rep_props(b);
}

fn push_digit(out: &mut String, d: u8)
    requires
        d < 10,
    ensures
        final(out)@ == old(out)@ + seq![char_of_digit(d as nat)],
{
    let lit: &str = if d == 0 {
        "0"
    } else if d == 1 {
        "1"
    } else if d == 2 {
        "2"
    } else if d == 3 {
        "3"
    } else if d == 4 {
        "4"
    } else if d == 5 {
        "5"
    } else if d == 6 {
        "6"
    } else if d == 7 {
        "7"
    } else if d == 8 {
        "8"
    } else {
        "9"
    };
    proof {
        reveal_strlit("0");
        reveal_strlit("1");
        reveal_strlit("2");
        reveal_strlit("3");
        reveal_strlit("4");
        reveal_strlit("5");
        reveal_strlit("6");
        reveal_strlit("7");
        reveal_strlit("8");
        reveal_strlit("9");
        assert(lit@ =~= seq![char_of_digit(d as nat)]);
    }
    out.append(lit);
}

fn push_u32_dec(out: &mut String, n: u32)
    ensures
        final(out)@ == old(out)@ + dec_rep(n as nat),
    decreases n,
{
    if n < 10 {
        push_digit(out, n as u8);
    } else {
        push_u32_dec(out, n / 10);
        push_digit(out, (n % 10) as u8);
        proof {
            assert(out@ =~= old(out)@ + dec_rep(n as nat));
        }
    }
}

/// One parsing step: reading one more digit multiplies the value so far by
/// ten and adds that digit.
pub proof fn lemma_dec_val_step(s: Seq<char>, i: int)
    requires
        0 <= i < s.len(),
    ensures
        dec_val(s.subrange(0, i + 1)) == dec_val(s.subrange(0, i)) * 10 + digit_val(s[i]),
{
    let t = s.subrange(0, i + 1);
    assert(t.drop_last() =~= s.subrange(0, i));
    assert(t.last() == s[i]);
}

/// The value of a prefix never exceeds the value of the whole digit text.
pub proof fn lemma_dec_val_prefix_le(s: Seq<char>, i: int)
    requires
        0 <= i <= s.len(),
    ensures
        dec_val(s.subrange(0, i)) <= dec_val(s),
    decreases s.len() - i,
{
    if i == s.len() {
        assert(s.subrange(0, i) =~= s);
    } else {
        lemma_dec_val_step(s, i);
        lemma_dec_val_prefix_le(s, i + 1);
        let p = dec_val(s.subrange(0, i));
        assert(p * 10 >= p) by (nonlinear_arith);
    }
}

/// Prints `n` as canonical decimal text.
pub fn format_u32(n: u32) -> (r: String)
    ensures
        r@ == dec_rep(n as nat),
{
    let mut out = String::new();
    push_u32_dec(&mut out, n);
    proof {
        assert(out@ =~= dec_rep(n as nat));
    }
    out
}

/// Reads canonical decimal text back; strict inverse of `format_u32`.
/// Anything but the canonical text of a value in range is rejected.
pub fn parse_u32(s: &str) -> (r: Option<u32>)
    ensures
        r matches Some(n) ==> s@ == dec_rep(n as nat),
        forall|n: u32| s@ == dec_rep(n as nat) ==> r == Some(n),
{
    let len = s.unicode_len();
    if len == 0 {
        proof {
            assert forall|n: u32| s@ != dec_rep(n as nat) by {
                lemma_dec_rep_props(n as nat);
            }
        }
        return None;
    }
    if len > 1 && s.get_char(0) == '0' {
        proof {
            assert forall|n: u32| s@ != dec_rep(n as nat) by {
                lemma_dec_rep_props(n as nat);
            }
        }
        return None;
    }
    let mut acc: u32 = 0;
    let mut i: usize = 0;
    proof {
        assert(s@.subrange(0, 0) =~= Seq::<char>::empty());
    }
    while i < len
        invariant
            0 <= i <= len,
            len == s@.len(),
            len >= 1,
            len > 1 ==> s@[0] != '0',
            forall|j: int| 0 <= j < i ==> is_digit_char(#[trigger] s@[j]),
            acc as nat == dec_val(s@.subrange(0, i as int)),
        decreases len - i,
    {
        let c = s.get_char(i);
        let u = c as u32;
        if u < 48 || u > 57 {
            proof {
                assert(!is_digit_char(s@[i as int]));
                assert forall|n: u32| s@ != dec_rep(n as nat) by {
                    lemma_dec_rep_props(n as nat);
                }
            }
            return None;
        }
        let d: u32 = u - 48;
        proof {
            assert(d as nat == digit_val(s@[i as int]));
        }
        if acc > (u32::MAX - d) / 10 {
            proof {
                let m = (u32::MAX - d) as nat;
                assert(acc as nat * 10 + d as nat > u32::MAX as nat) by (nonlinear_arith)
                    requires
                        acc as nat > m / 10,
                        m == u32::MAX as nat - d as nat,
                        d < 10,
                ;
                lemma_dec_val_step(s@, i as int);
                lemma_dec_val_prefix_le(s@, i as int + 1);
                assert forall|n: u32| s@ != dec_rep(n as nat) by {
                    lemma_dec_rep_props(n as nat);
                    if s@ == dec_rep(n as nat) {
                        assert(dec_val(s@) == n as nat);
                        assert(dec_val(s@.subrange(0, i as int + 1)) > u32::MAX as nat);
                    }
                }
            }
            return None;
        }
        proof {
            lemma_dec_val_step(s@, i as int);
        }
        acc = acc * 10 + d;
        i = i + 1;
    }
    proof {
        assert(s@.subrange(0, len as int) =~= s@);
        assert(is_canonical_dec(s@));
        lemma_canonical_dec_rep(s@);
        assert(s@ == dec_rep(acc as nat));
        assert forall|n: u32| s@ == dec_rep(n as nat) implies Some(acc) == Some(n) by {
            lemma_dec_rep_props(n as nat);
        }
    }
    Some(acc)
}

/// Canonical decimal text of a signed value: a '-' sign ahead of the
/// magnitude for negative values, plain digits otherwise.
pub open spec fn int_rep(v: int) -> Seq<char> {
    if v >= 0 {
        dec_rep(v as nat)
    } else {
        seq!['-'] + dec_rep((-v) as nat)
    }
}

/// Two values with the same signed decimal text are the same value.
pub proof fn lemma_int_rep_injective(a: int, b: int)
    requires
        int_rep(a) == int_rep(b),
    ensures
        a == b,
{
    lemma_dec_rep_props((if a >= 0 { a } else { -a }) as nat);
    lemma_dec_rep_props((if b >= 0 { b } else { -b }) as nat);
    if a >= 0 && b >= 0 {
        lemma_dec_rep_injective(a as nat, b as nat);
    } else if a < 0 && b < 0 {
        assert(int_rep(a).subrange(1, int_rep(a).len() as int) =~= dec_rep((-a) as nat));
        assert(int_rep(b).subrange(1, int_rep(b).len() as int) =~= dec_rep((-b) as nat));
        lemma_dec_rep_injective((-a) as nat, (-b) as nat);
    } else if a >= 0 {
        assert(int_rep(a)[0] == dec_rep(a as nat)[0]);
        assert(is_digit_char(int_rep(a)[0]));
        assert(int_rep(b)[0] == '-');
    } else {
        assert(int_rep(b)[0] == dec_rep(b as nat)[0]);
        assert(is_digit_char(int_rep(b)[0]));
        assert(int_rep(a)[0] == '-');
    }
}

/// Prints a signed value as canonical decimal text.
pub fn format_i32(v: i32) -> (r: String)
    ensures
        r@ == int_rep(v as int),
{
    if v >= 0 {
        format_u32(v as u32)
    } else {
        let mut out = String::new();
        proof {
            reveal_strlit("-");
        }
        out.append("-");
        let wide: i64 = v as i64;
        let mag: i64 = -wide;
        push_u32_dec(&mut out, mag as u32);
        proof {
            assert(out@ =~= int_rep(v as int));
        }
        out
    }
}

/// Reads signed canonical decimal text back; strict inverse of `format_i32`.
pub fn parse_i32(s: &str) -> (r: Option<i32>)
    ensures
        r matches Some(v) ==> s@ == int_rep(v as int),
        forall|v: i32| s@ == int_rep(v as int) ==> r == Some(v),
{
    let len = s.unicode_len();
    if len >= 1 && s.get_char(0) == '-' {
        let rest = s.substring_char(1, len);
        proof {
            assert(rest@ == s@.subrange(1, len as int));
            assert forall|v: i32| s@ == int_rep(v as int) && v < 0 implies rest@ == dec_rep(
                (-(v as int)) as nat,
            ) by {
                assert(s@.subrange(1, len as int) =~= dec_rep((-(v as int)) as nat));
            }
            assert forall|v: i32| v >= 0 implies s@ != int_rep(v as int) by {
                lemma_dec_rep_props(v as nat);
                if s@ == int_rep(v as int) {
                    assert(is_digit_char(s@[0]));
                }
            }
        }
        match parse_u32(rest) {
            Some(mag) => {
                if mag == 0 || mag > 2147483648 {
                    proof {
                        lemma_dec_rep_props(mag as nat);
                        assert forall|v: i32| s@ != int_rep(v as int) by {
                            if s@ == int_rep(v as int) && v < 0 {
                                lemma_dec_rep_injective(mag as nat, (-(v as int)) as nat);
                            }
                        }
                    }
                    None
                } else {
                    let val: i64 = -(mag as i64);
                    let out: i32 = val as i32;
                    proof {
                        assert(out as int == -(mag as int));
                        assert(s@ =~= seq!['-'] + rest@);
                        assert(s@ == int_rep(out as int));
                        assert forall|v: i32| s@ == int_rep(v as int) implies Some(out) == Some(
                            v,
                        ) by {
                            if v >= 0 {
                            } else {
                                lemma_dec_rep_injective(mag as nat, (-(v as int)) as nat);
                            }
                        }
                    }
                    Some(out)
                }
            },
            None => {
                proof {
                    assert forall|v: i32| s@ != int_rep(v as int) by {
                        if s@ == int_rep(v as int) && v < 0 {
                            let m: u32 = (-(v as int)) as u32;
                            assert(rest@ == dec_rep(m as nat));
                        }
                    }
                }
                None
            },
        }
    } else {
        proof {
            assert forall|v: i32| v < 0 implies s@ != int_rep(v as int) by {
                if s@ == int_rep(v as int) {
                    assert(s@[0] == '-');
                }
            }
        }
        match parse_u32(s) {
            Some(mag) => {
                if mag > 2147483647 {
                    proof {
                        assert forall|v: i32| s@ != int_rep(v as int) by {
                            if s@ == int_rep(v as int) && v >= 0 {
                                lemma_dec_rep_injective(mag as nat, v as nat);
                            }
                        }
                    }
                    None
                } else {
                    let out: i32 = mag as i32;
                    proof {
                        assert(s@ == int_rep(out as int));
                        assert forall|v: i32| s@ == int_rep(v as int) implies Some(out) == Some(
                            v,
                        ) by {
                            if v >= 0 {
                                lemma_dec_rep_injective(mag as nat, v as nat);
                            }
                        }
                    }
                    Some(out)
                }
            },
            None => {
                proof {
                    assert forall|v: i32| s@ != int_rep(v as int) by {
                        if s@ == int_rep(v as int) && v >= 0 {
                            assert(s@ == dec_rep((v as u32) as nat));
                        }
                    }
                }
                None
            },
        }
    }
}

} // verus!
