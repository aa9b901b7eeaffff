use vstd::prelude::*;
use vstd::string::StrSliceExecFns;
use vstd::string::StringExecFns;

verus! {

// Comma-separated fields and line trimming. The record layer writes fixed
// field lists joined by commas; splitting is its exact inverse as long as no
// field holds a comma, which `lemma_join_comma_injective` pins down.

/// No comma anywhere in the piece.
pub open spec fn comma_free(s: Seq<char>) -> bool {
    forall|i: int| 0 <= i < s.len() ==> s[i] != ','
}

pub open spec fn all_comma_free(fs: Seq<Seq<char>>) -> bool {
    forall|i: int| 0 <= i < fs.len() ==> comma_free(#[trigger] fs[i])
}

/// The pieces joined with one comma between neighbours.
pub open spec fn join_comma(fs: Seq<Seq<char>>) -> Seq<char>
    decreases fs.len(),
{
    if fs.len() == 0 {
        Seq::empty()
    } else if fs.len() == 1 {
        fs[0]
    } else {
        fs[0] + seq![','] + join_comma(fs.drop_first())
    }
}

/// Appending one more piece appends one comma and the piece.
pub proof fn lemma_join_comma_push(fs: Seq<Seq<char>>, z: Seq<char>)
    requires
        fs.len() >= 1,
    ensures
        join_comma(fs.push(z)) == join_comma(fs) + seq![','] + z,
    decreases fs.len(),
{
    if fs.len() == 1 {
        let p = fs.push(z);
        assert(p.drop_first() =~= seq![z]);
        assert(p[0] == fs[0]);
        assert(join_comma(p.drop_first()) == z);
        assert(join_comma(p) =~= fs[0] + seq![','] + z);
    } else {
        let p = fs.push(z);
        assert(p.drop_first() =~= fs.drop_first().push(z));
        lemma_join_comma_push(fs.drop_first(), z);
        assert(join_comma(p) =~= join_comma(fs) + seq![','] + z);
    }
}

/// No occurrence of `c` anywhere in the piece.
pub open spec fn char_free(s: Seq<char>, c: char) -> bool {
    forall|i: int| 0 <= i < s.len() ==> s[i] != c
}

/// A join of pieces free of some non-comma character is itself free of it:
/// joining only ever adds commas.
pub proof fn lemma_join_char_free(fs: Seq<Seq<char>>, c: char)
    requires
        c != ',',
        forall|i: int| 0 <= i < fs.len() ==> char_free(#[trigger] fs[i], c),
    ensures
        char_free(join_comma(fs), c),
    decreases fs.len(),
{
    if fs.len() <= 1 {
    } else {
        let t = fs.drop_first();
        assert(forall|i: int| 0 <= i < t.len() ==> #[trigger] t[i] == fs[i + 1]);
        lemma_join_char_free(t, c);
        let j = join_comma(fs);
        assert(j == fs[0] + seq![','] + join_comma(t));
        assert forall|i: int| 0 <= i < j.len() implies j[i] != c by {
            let l0 = fs[0].len() as int;
            if i < l0 {
                assert(j[i] == fs[0][i]);
            } else if i == l0 {
                assert(j[i] == ',');
            } else {
                assert(j[i] == join_comma(t)[i - l0 - 1]);
            }
        }
    }
}

/// How a join starts: the first piece, then a comma if more pieces follow.
pub proof fn lemma_join_comma_first(fs: Seq<Seq<char>>)
    requires
        fs.len() >= 1,
    ensures
        join_comma(fs).len() >= fs[0].len(),
        forall|i: int| 0 <= i < fs[0].len() ==> join_comma(fs)[i] == fs[0][i],
        fs.len() == 1 ==> join_comma(fs) == fs[0],
        fs.len() > 1 ==> join_comma(fs).len() > fs[0].len() && join_comma(fs)[fs[0].len() as int]
            == ',' && join_comma(fs).subrange(
            fs[0].len() as int + 1,
            join_comma(fs).len() as int,
        ) == join_comma(fs.drop_first()),
{
    if fs.len() > 1 {
        let j = join_comma(fs);
        assert(j == fs[0] + seq![','] + join_comma(fs.drop_first()));
        assert(j.subrange(fs[0].len() as int + 1, j.len() as int) =~= join_comma(fs.drop_first()));
    }
}

/// Joining with commas is injective on comma-free piece lists: the comma
/// positions recover the piece boundaries.
pub proof fn lemma_join_comma_injective(a: Seq<Seq<char>>, b: Seq<Seq<char>>)
    requires
        a.len() >= 1,
        b.len() >= 1,
        all_comma_free(a),
        all_comma_free(b),
        join_comma(a) == join_comma(b),
    ensures
        a == b,
    decreases a.len(),
{
    lemma_join_comma_first(a);
    lemma_join_comma_first(b);
    let j = join_comma(a);
    if a.len() == 1 && b.len() == 1 {
        assert(a[0] =~= b[0]);
        assert(a =~= b);
    } else if a.len() == 1 {
        let k = b[0].len() as int;
        assert(join_comma(b)[k] == ',');
        assert(j[k] == a[0][k]);
        assert(comma_free(a[0]));
        assert(false);
    } else if b.len() == 1 {
        let k = a[0].len() as int;
        assert(join_comma(a)[k] == ',');
        assert(join_comma(b)[k] == b[0][k]);
        assert(comma_free(b[0]));
        assert(false);
    } else {
        let la = a[0].len() as int;
        let lb = b[0].len() as int;
        if la < lb {
            assert(join_comma(b)[la] == b[0][la]);
            assert(join_comma(a)[la] == ',');
            assert(comma_free(b[0]));
            assert(false);
        }
        if lb < la {
            assert(join_comma(a)[lb] == a[0][lb]);
            assert(join_comma(b)[lb] == ',');
            assert(comma_free(a[0]));
            assert(false);
        }
        assert(la == lb);
        assert forall|i: int| 0 <= i < la implies a[0][i] == b[0][i] by {
            assert(join_comma(a)[i] == a[0][i]);
            assert(join_comma(b)[i] == b[0][i]);
        }
        assert(a[0] =~= b[0]);
        assert(all_comma_free(a.drop_first())) by {
            assert(forall|i: int|
                0 <= i < a.drop_first().len() ==> #[trigger] a.drop_first()[i] == a[i + 1]);
        }
        assert(all_comma_free(b.drop_first())) by {
            assert(forall|i: int|
                0 <= i < b.drop_first().len() ==> #[trigger] b.drop_first()[i] == b[i + 1]);
        }
        assert(join_comma(a.drop_first()) == join_comma(b.drop_first())) by {
            assert(join_comma(a).subrange(la + 1, join_comma(a).len() as int) == join_comma(
                a.drop_first(),
            ));
            assert(join_comma(b).subrange(lb + 1, join_comma(b).len() as int) == join_comma(
                b.drop_first(),
            ));
        }
        lemma_join_comma_injective(a.drop_first(), b.drop_first());
        assert forall|i: int| 0 <= i < a.len() implies a[i] == b[i] by {
            if i > 0 {
                assert(a.drop_first()[i - 1] == a[i]);
                assert(b.drop_first()[i - 1] == b[i]);
            }
        }
        assert(a =~= b);
    }
}

/// The views of a list of owned pieces.
pub open spec fn pieces_view(v: Seq<String>) -> Seq<Seq<char>> {
    v.map_values(|p: String| p@)
}

/// Splits on every comma; the exact inverse of joining comma-free pieces.
pub fn split_commas(s: &str) -> (r: Vec<String>)
    ensures
        r@.len() >= 1,
        all_comma_free(pieces_view(r@)),
        join_comma(pieces_view(r@)) == s@,
{
    let len = s.unicode_len();
    let mut out: Vec<String> = Vec::new();
    let mut start: usize = 0;
    let mut i: usize = 0;
    proof {
        assert(s@.subrange(0, 0) =~= Seq::<char>::empty());
        assert(pieces_view(out@) =~= Seq::<Seq<char>>::empty());
    }
    while i < len
        invariant
            0 <= start <= i <= len,
            len == s@.len(),
            all_comma_free(pieces_view(out@)),
            forall|j: int| start <= j < i ==> s@[j] != ',',
            join_comma(pieces_view(out@).push(s@.subrange(start as int, i as int))) == s@.subrange(
                0,
                i as int,
            ),
        decreases len - i,
    {
        let c = s.get_char(i);
        if c == ',' {
            let piece = s.substring_char(start, i);
            let owned = String::from_str(piece);
            proof {
                let cur = s@.subrange(start as int, i as int);
                let ps = pieces_view(out@);
                lemma_join_comma_push(ps.push(cur), s@.subrange(i as int + 1, i as int + 1));
                assert(pieces_view(out@.push(owned)) =~= ps.push(cur));
                assert(s@.subrange(i as int + 1, i as int + 1) =~= Seq::<char>::empty());
                assert(join_comma(ps.push(cur).push(s@.subrange(i as int + 1, i as int + 1)))
                    =~= s@.subrange(0, i as int + 1));
            }
            out.push(owned);
            start = i + 1;
        } else {
            proof {
                let cur = s@.subrange(start as int, i as int);
                let cur2 = s@.subrange(start as int, i as int + 1);
                let ps = pieces_view(out@);
                let c = s@[i as int];
                assert(cur2 =~= cur.push(c));
                assert(s@.subrange(0, i as int + 1) =~= s@.subrange(0, i as int).push(c));
                if ps.len() == 0 {
                    assert(join_comma(ps.push(cur)) == cur);
                    assert(join_comma(ps.push(cur2)) == cur2);
                    assert(cur == s@.subrange(0, i as int));
                } else {
                    lemma_join_comma_push(ps, cur);
                    lemma_join_comma_push(ps, cur2);
                    assert(join_comma(ps) + seq![','] + cur2 =~= (join_comma(ps) + seq![',']
                        + cur).push(c));
                }
                assert(join_comma(ps.push(cur2)) =~= s@.subrange(0, i as int + 1));
            }
        }
        i = i + 1;
    }
    let piece = s.substring_char(start, len);
    let owned = String::from_str(piece);
    proof {
        let cur = s@.subrange(start as int, len as int);
        assert(pieces_view(out@.push(owned)) =~= pieces_view(out@).push(cur));
        assert(s@.subrange(0, len as int) =~= s@);
    }
    out.push(owned);
    out
}

/// True when the text holds at least one comma, the field separator of
/// structured records.
pub fn has_comma(s: &str) -> (r: bool)
    ensures
        r == !comma_free(s@),
{
    let len = s.unicode_len();
    let mut i: usize = 0;
    while i < len
        invariant
            0 <= i <= len,
            len == s@.len(),
            forall|j: int| 0 <= j < i ==> s@[j] != ',',
        decreases len - i,
    {
        if s.get_char(i) == ',' {
            return true;
        }
        i = i + 1;
    }
    false
}

pub open spec fn is_space_char(c: char) -> bool {
    c == ' ' || c == '\t' || c == '\r' || c == '\n'
}

pub open spec fn trim_front(s: Seq<char>) -> Seq<char>
    decreases s.len(),
{
    if s.len() > 0 && is_space_char(s[0]) {
        trim_front(s.drop_first())
    } else {
        s
    }
}

pub open spec fn trim_back(s: Seq<char>) -> Seq<char>
    decreases s.len(),
{
    if s.len() > 0 && is_space_char(s.last()) {
        trim_back(s.drop_last())
    } else {
        s
    }
}

/// The text with leading and trailing whitespace removed.
pub open spec fn trimmed(s: Seq<char>) -> Seq<char> {
    trim_back(trim_front(s))
}

proof fn lemma_trim_front_at(s: Seq<char>, k: int)
    requires
        0 <= k <= s.len(),
        forall|j: int| 0 <= j < k ==> is_space_char(#[trigger] s[j]),
        k == s.len() || !is_space_char(s[k]),
    ensures
        trim_front(s) == s.subrange(k, s.len() as int),
    decreases k,
{
    if k == 0 {
        assert(s.subrange(0, s.len() as int) =~= s);
    } else {
        let t = s.drop_first();
        assert(t =~= s.subrange(1, s.len() as int));
        lemma_trim_front_at(t, k - 1);
        assert(t.subrange(k - 1, t.len() as int) =~= s.subrange(k, s.len() as int));
    }
}

proof fn lemma_trim_back_at(s: Seq<char>, k: int)
    requires
        0 <= k <= s.len(),
        forall|j: int| k <= j < s.len() ==> is_space_char(#[trigger] s[j]),
        k == 0 || !is_space_char(s[k - 1]),
    ensures
        trim_back(s) == s.subrange(0, k),
    decreases s.len(),
{
    if s.len() > 0 && is_space_char(s.last()) {
        let t = s.drop_last();
        assert(t =~= s.subrange(0, s.len() - 1));
        lemma_trim_back_at(t, k);
        assert(t.subrange(0, k) =~= s.subrange(0, k));
    } else {
        assert(k == s.len());
        assert(s.subrange(0, k) =~= s);
    }
}

fn is_space(c: char) -> (r: bool)
    ensures
        r == is_space_char(c),
{
    c == ' ' || c == '\t' || c == '\r' || c == '\n'
}

/// Removes leading and trailing whitespace, as the uplink does to each
/// serial line before it is enveloped.
pub fn trim_line(s: &str) -> (r: String)
    ensures
        r@ == trimmed(s@),
{
    let len = s.unicode_len();
    let mut a: usize = 0;
    while a < len && is_space(s.get_char(a))
        invariant
            0 <= a <= len,
            len == s@.len(),
            forall|j: int| 0 <= j < a ==> is_space_char(#[trigger] s@[j]),
        decreases len - a,
    {
        a = a + 1;
    }
    let mut b: usize = len;
    while b > a && is_space(s.get_char(b - 1))
        invariant
            a <= b <= len,
            len == s@.len(),
            forall|j: int| b <= j < len ==> is_space_char(#[trigger] s@[j]),
        decreases b,
    {
        b = b - 1;
    }
    let piece = s.substring_char(a, b);
    let owned = String::from_str(piece);
    proof {
        lemma_trim_front_at(s@, a as int);
        let t = s@.subrange(a as int, len as int);
        assert(forall|j: int|
            b - a <= j < t.len() ==> is_space_char(#[trigger] t[j]) == is_space_char(
                s@[j + a],
            ) && is_space_char(s@[j + a]));
        if b > a {
            assert(!is_space_char(t[b - a - 1]));
        }
        lemma_trim_back_at(t, b - a);
        assert(t.subrange(0, b - a) =~= s@.subrange(a as int, b as int));
    }
    owned
}

} // verus!
