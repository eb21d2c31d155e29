use vstd::prelude::*;
use vstd::string::StrSliceExecFns;
use vstd::string::StringExecFns;

verus! {

/// Whether `sub` occurs contiguously anywhere in `s`.
pub open spec fn has_substring(s: Seq<char>, sub: Seq<char>) -> bool {
    exists|i: int|
        0 <= i && i + sub.len() <= s.len() && #[trigger] s.subrange(i, i + sub.len()) == sub
}

/// Compare the characters of `s` between `from` and `to` with the whole of
/// `t`.
pub fn str_eq_range(s: &str, from: usize, to: usize, t: &str) -> (r: bool)
    requires
        from <= to <= s@.len(),
    ensures
        r == (s@.subrange(from as int, to as int) == t@),
{
    let n = t.unicode_len();
    if to - from != n {
        proof {
            assert(s@.subrange(from as int, to as int).len() == to - from);
        }
        return false;
    }
    let mut j: usize = 0;
    while j < n
        invariant
            from <= to <= s@.len(),
            n == t@.len(),
            to - from == n,
            j <= n,
            forall|l: int| 0 <= l < j ==> s@[from + l] == t@[l],
        decreases n - j,
    {
        if s.get_char(from + j) != t.get_char(j) {
            proof {
                let a = s@.subrange(from as int, to as int);
                assert(a[j as int] == s@[from + j]);
                assert(a[j as int] != t@[j as int]);
            }
            return false;
        }
        j += 1;
    }
    proof {
        assert(s@.subrange(from as int, to as int) =~= t@);
    }
    true
}

/// Whether `sub` occurs anywhere in `s`, as `str::contains` decides it.
pub fn contains_substr(s: &str, sub: &str) -> (r: bool)
    ensures
        r == has_substring(s@, sub@),
{
    let n = s.unicode_len();
    let m = sub.unicode_len();
    if m > n {
        return false;
    }
    if m == 0 {
        proof {
            assert(s@.subrange(0, 0 + sub@.len() as int) == sub@);
        }
        return true;
    }
    let mut i: usize = 0;
    while i <= n - m
        invariant
            0 < m <= n,
            n == s@.len(),
            m == sub@.len(),
            i <= n - m + 1,
            forall|k: int| 0 <= k < i ==> #[trigger] s@.subrange(k, k + sub@.len()) != sub@,
        decreases n - i,
    {
        if str_eq_range(s, i, i + m, sub) {
            proof {
                assert(s@.subrange(i as int, i as int + sub@.len()) == sub@);
            }
            return true;
        }
        i += 1;
    }
    false
}

/// The largest index `i < k` at which `s` holds the character `c`, or -1 if
/// there is none.
pub open spec fn last_index_before(s: Seq<char>, k: int, c: char) -> int
    decreases k,
{
    if k <= 0 {
        -1
    } else if s[k - 1] == c {
        k - 1
    } else {
        last_index_before(s, k - 1, c)
    }
}

pub fn find_last_before(s: &str, k: usize, c: char) -> (r: Option<usize>)
    requires
        k <= s@.len(),
    ensures
        r matches Some(j) ==> j == last_index_before(s@, k as int, c) && j < k,
        r is None ==> last_index_before(s@, k as int, c) == -1,
{
    let mut i: usize = k;
    while i > 0
        invariant
            i <= k <= s@.len(),
            last_index_before(s@, k as int, c) == last_index_before(s@, i as int, c),
        decreases i,
    {
        if s.get_char(i - 1) == c {
            return Some(i - 1);
        }
        i -= 1;
    }
    None
}

/// `s` with every occurrence of `pat` removed, scanning left to right, as
/// `str::replace(pat, "")` produces it.
pub open spec fn remove_all(s: Seq<char>, pat: Seq<char>) -> Seq<char>
    decreases s.len(),
{
    if pat.len() == 0 || s.len() < pat.len() {
        s
    } else if s.take(pat.len() as int) == pat {
        remove_all(s.skip(pat.len() as int), pat)
    } else {
        seq![s.first()] + remove_all(s.drop_first(), pat)
    }
}

pub fn remove_all_str(s: &str, pat: &str) -> (r: String)
    requires
        pat@.len() > 0,
    ensures
        r@ == remove_all(s@, pat@),
{
    let n = s.unicode_len();
    let m = pat.unicode_len();
    let mut out = String::new();
    let mut i: usize = 0;
    proof {
        assert(s@.skip(0) =~= s@);
    }
    while i < n
        invariant
            i <= n,
            n == s@.len(),
            m == pat@.len(),
            m > 0,
            out@ + remove_all(s@.skip(i as int), pat@) == remove_all(s@, pat@),
        decreases n - i,
    {
        let matched = m <= n - i && str_eq_range(s, i, i + m, pat);
        if matched {
            proof {
                assert(s@.skip(i as int).take(m as int) =~= s@.subrange(i as int, i + m));
                assert(s@.skip(i as int).skip(m as int) =~= s@.skip(i + m));
            }
            i += m;
        } else {
            proof {
                let rest = s@.skip(i as int);
                assert(rest.len() == n - i);
                assert(rest.first() == s@[i as int]);
                assert(rest.drop_first() =~= s@.skip(i + 1));
                if i + m <= n {
                    assert(rest.take(m as int) =~= s@.subrange(i as int, i + m));
                    assert(remove_all(rest, pat@) == seq![s@[i as int]] + remove_all(
                        s@.skip(i + 1),
                        pat@,
                    ));
                } else {
                    assert(remove_all(rest, pat@) == rest);
                    assert(remove_all(s@.skip(i + 1), pat@) == s@.skip(i + 1));
                    assert(rest =~= seq![s@[i as int]] + s@.skip(i + 1));
                }
                assert(s@.subrange(i as int, i + 1) =~= seq![s@[i as int]]);
            }
            let ch = s.substring_char(i, i + 1);
            out.append(ch);
            proof {
                assert(out@ + remove_all(s@.skip(i + 1), pat@) =~= remove_all(s@, pat@));
            }
            i += 1;
        }
    }
    proof {
        assert(s@.skip(n as int) =~= Seq::<char>::empty());
        assert(out@ + remove_all(s@.skip(n as int), pat@) =~= out@);
    }
    out
}

/// The whitespace characters that trimming strips.
pub open spec fn is_space(c: char) -> bool {
    c == ' ' || c == '\t' || c == '\n' || c == '\r'
}

fn is_space_char(c: char) -> (b: bool)
    ensures
        b == is_space(c),
{
    c == ' ' || c == '\t' || c == '\n' || c == '\r'
}

pub open spec fn trim_start_spec(s: Seq<char>) -> Seq<char>
    decreases s.len(),
{
    if s.len() > 0 && is_space(s.first()) {
        trim_start_spec(s.drop_first())
    } else {
        s
    }
}

pub open spec fn trim_end_spec(s: Seq<char>) -> Seq<char>
    decreases s.len(),
{
    if s.len() > 0 && is_space(s.last()) {
        trim_end_spec(s.drop_last())
    } else {
        s
    }
}

/// `s` with leading and trailing whitespace removed.
pub open spec fn trim_spec(s: Seq<char>) -> Seq<char> {
    trim_end_spec(trim_start_spec(s))
}

pub fn trim_str(s: &str) -> (r: String)
    ensures
        r@ == trim_spec(s@),
{
    let n = s.unicode_len();
    let mut a: usize = 0;
    proof {
        assert(s@.skip(0) =~= s@);
    }
    while a < n && is_space_char(s.get_char(a))
        invariant
            a <= n,
            n == s@.len(),
            trim_start_spec(s@) == trim_start_spec(s@.skip(a as int)),
        decreases n - a,
    {
        proof {
            assert(s@.skip(a as int).first() == s@[a as int]);
            assert(s@.skip(a as int).drop_first() =~= s@.skip(a + 1));
        }
        a += 1;
    }
    proof {
        if a < n {
            assert(s@.skip(a as int).first() == s@[a as int]);
        } else {
            assert(s@.skip(a as int) =~= Seq::<char>::empty());
        }
        assert(trim_start_spec(s@) == s@.skip(a as int));
        assert(s@.skip(a as int) =~= s@.subrange(a as int, n as int));
    }
    let mut b: usize = n;
    while b > a && is_space_char(s.get_char(b - 1))
        invariant
            a <= b <= n,
            n == s@.len(),
            trim_end_spec(s@.skip(a as int)) == trim_end_spec(s@.subrange(a as int, b as int)),
        decreases b,
    {
        proof {
            assert(s@.subrange(a as int, b as int).last() == s@[b - 1]);
            assert(s@.subrange(a as int, b as int).drop_last() =~= s@.subrange(a as int, b - 1));
        }
        b -= 1;
    }
    proof {
        if b > a {
            assert(s@.subrange(a as int, b as int).last() == s@[b - 1]);
        } else {
            assert(s@.subrange(a as int, b as int) =~= Seq::<char>::empty());
        }
        assert(trim_end_spec(s@.subrange(a as int, b as int)) == s@.subrange(a as int, b as int));
    }
    let t = s.substring_char(a, b);
    t.to_owned()
}

/// The application identifier one argument yields: the argument with every
/// `AppId=` token removed and surrounding whitespace trimmed.
pub open spec fn app_id_of(s: Seq<char>) -> Seq<char> {
    trim_spec(remove_all(s, "AppId="@))
}

pub fn extract_app_id(s: &str) -> (r: String)
    ensures
        r@ == app_id_of(s@),
{
    proof {
        reveal_strlit("AppId=");
    }
    let cleaned = remove_all_str(s, "AppId=");
    trim_str(cleaned.as_str())
}

} // verus!
