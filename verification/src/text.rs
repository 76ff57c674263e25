//! Plain-text helpers: character-vector equality, lexicographic order on
//! names, conversions between `String` and character vectors, and splitting
//! captured tool output into lines.
use vstd::prelude::*;

verus! {

/// The line-by-line view of a text held as a vector of character vectors.
pub open spec fn view_lines(v: Seq<Vec<char>>) -> Seq<Seq<char>> {
    v.map_values(|l: Vec<char>| l@)
}

/// Byte-exact equality of two character vectors.
pub fn chars_eq(a: &Vec<char>, b: &Vec<char>) -> (r: bool)
    ensures
        r == (a@ == b@),
{
    if a.len() != b.len() {
        assert(a@ != b@);
        return false;
    }
    let mut i: usize = 0;
    while i < a.len()
        invariant
            i <= a.len(),
            a.len() == b.len(),
            forall|j: int| 0 <= j < i ==> a@[j] == b@[j],
        decreases a.len() - i,
    {
        if a[i] != b[i] {
            assert(a@ != b@);
            return false;
        }
        i += 1;
    }
    assert(a@ =~= b@);
    true
}

/// Byte-exact equality of two texts, line by line.
pub fn lines_eq(a: &Vec<Vec<char>>, b: &Vec<Vec<char>>) -> (r: bool)
    ensures
        r == (view_lines(a@) == view_lines(b@)),
{
    if a.len() != b.len() {
        assert(view_lines(a@).len() != view_lines(b@).len());
        return false;
    }
    let mut i: usize = 0;
    while i < a.len()
        invariant
            i <= a.len(),
            a.len() == b.len(),
            forall|j: int| 0 <= j < i ==> view_lines(a@)[j] == view_lines(b@)[j],
        decreases a.len() - i,
    {
        if !chars_eq(&a[i], &b[i]) {
            assert(view_lines(a@)[i as int] != view_lines(b@)[i as int]);
            return false;
        }
        i += 1;
    }
    assert(view_lines(a@) =~= view_lines(b@));
    true
}

/// Strict lexicographic order on character sequences, by code point.
pub open spec fn lex_lt(a: Seq<char>, b: Seq<char>) -> bool
    decreases a.len(),
{
    if b.len() == 0 {
        false
    } else if a.len() == 0 {
        true
    } else if a[0] != b[0] {
        (a[0] as u32) < (b[0] as u32)
    } else {
        lex_lt(a.drop_first(), b.drop_first())
    }
}

/// Decides `lex_lt` on two character vectors.
pub fn chars_lt(a: &Vec<char>, b: &Vec<char>) -> (r: bool)
    ensures
        r == lex_lt(a@, b@),
{
    let mut i: usize = 0;
    assert(a@.skip(0) =~= a@);
    assert(b@.skip(0) =~= b@);
    while i < a.len() && i < b.len()
        invariant
            i <= a.len(),
            i <= b.len(),
            lex_lt(a@, b@) == lex_lt(a@.skip(i as int), b@.skip(i as int)),
        decreases a.len() - i,
    {
        let ca = a[i];
        let cb = b[i];
        proof {
            assert(a@.skip(i as int).drop_first() =~= a@.skip(i + 1));
            assert(b@.skip(i as int).drop_first() =~= b@.skip(i + 1));
        }
        if ca != cb {
            return (ca as u32) < (cb as u32);
        }
        i += 1;
    }
    proof {
        assert(a@.skip(i as int).len() == a@.len() - i);
        assert(b@.skip(i as int).len() == b@.len() - i);
    }
    i < b.len()
}

/// Collects the characters of a string slice.
pub fn str_to_chars(s: &str) -> (r: Vec<char>)
    ensures
        r@ == s@,
{
    let n = s.unicode_len();
    let mut r: Vec<char> = Vec::new();
    let mut i: usize = 0;
    while i < n
        invariant
            i <= n,
            n == s@.len(),
            r@ == s@.subrange(0, i as int),
        decreases n - i,
    {
        r.push(s.get_char(i));
        assert(r@ =~= s@.subrange(0, i + 1));
        i += 1;
    }
    assert(r@ =~= s@);
    r
}

/// Relies on `String::push`: appends exactly the one character.
#[verifier::external_body]
fn push_char(s: &mut String, c: char)
    ensures
        final(s)@ == old(s)@.push(c),
{
    s.push(c)
}

/// Builds a `String` whose characters are exactly `v`.
pub fn chars_to_string(v: &Vec<char>) -> (r: String)
    ensures
        r@ == v@,
{
    let mut r = String::new();
    let mut i: usize = 0;
    while i < v.len()
        invariant
            i <= v.len(),
            r@ == v@.subrange(0, i as int),
        decreases v.len() - i,
    {
        push_char(&mut r, v[i]);
        assert(r@ =~= v@.subrange(0, i + 1));
        i += 1;
    }
    assert(r@ =~= v@);
    r
}

/// The position of the first newline in `s`, or -1 when there is none.
pub open spec fn first_newline(s: Seq<char>) -> int
    decreases s.len(),
{
    if s.len() == 0 {
        -1
    } else if s[0] == '\n' {
        0
    } else {
        let r = first_newline(s.drop_first());
        if r == -1 {
            -1
        } else {
            r + 1
        }
    }
}

/// `first_newline` names the first newline exactly.
pub proof fn lemma_first_newline(s: Seq<char>)
    ensures
        first_newline(s) == -1 ==> forall|j: int| 0 <= j < s.len() ==> s[j] != '\n',
        first_newline(s) != -1 ==> 0 <= first_newline(s) < s.len() && s[first_newline(s)] == '\n'
            && forall|j: int| 0 <= j < first_newline(s) ==> s[j] != '\n',
    decreases s.len(),
{
    if s.len() > 0 && s[0] != '\n' {
        let t = s.drop_first();
        lemma_first_newline(t);
        if first_newline(t) == -1 {
            assert forall|j: int| 0 <= j < s.len() implies s[j] != '\n' by {
                if j > 0 {
                    assert(t[j - 1] == s[j]);
                }
            }
        } else {
            let r = first_newline(t);
            assert(s[r + 1] == t[r]);
            assert forall|j: int| 0 <= j < r + 1 implies s[j] != '\n' by {
                if j > 0 {
                    assert(t[j - 1] == s[j]);
                }
            }
        }
    }
}

/// The lines of `s` when cut at every newline character: splitting at the
/// first newline and recurring on the rest; a text without newlines is one
/// line.
pub open spec fn split_lines_spec(s: Seq<char>) -> Seq<Seq<char>>
    decreases s.len(),
{
    let k = first_newline(s);
    if 0 <= k < s.len() {
        seq![s.subrange(0, k)] + split_lines_spec(s.subrange(k + 1, s.len() as int))
    } else {
        seq![s]
    }
}

/// Splits a text at newline characters, as `split_lines_spec` says.
pub fn split_lines(s: &Vec<char>) -> (r: Vec<Vec<char>>)
    ensures
        view_lines(r@) == split_lines_spec(s@),
    decreases s@.len(),
{
    let n = s.len();
    let mut k: usize = 0;
    while k < n && s[k] != '\n'
        invariant
            k <= n,
            n == s.len(),
            forall|j: int| 0 <= j < k ==> s@[j] != '\n',
        decreases n - k,
    {
        k += 1;
    }
    if k == n {
            let mut r: Vec<Vec<char>> = Vec::new();
            let mut line: Vec<char> = Vec::new();
            let mut j: usize = 0;
            while j < s.len()
                invariant
                    j <= s.len(),
                    line@ == s@.subrange(0, j as int),
                decreases s.len() - j,
            {
                line.push(s[j]);
                assert(line@ =~= s@.subrange(0, j + 1));
                j += 1;
            }
            assert(line@ =~= s@);
            r.push(line);
            proof {
                lemma_first_newline(s@);
                assert(first_newline(s@) == -1);
                assert(view_lines(r@) =~= split_lines_spec(s@));
            }
            r
        } else {
            let mut head: Vec<char> = Vec::new();
            let mut j: usize = 0;
            while j < k
                invariant
                    j <= k,
                    k < s.len(),
                    head@ == s@.subrange(0, j as int),
                decreases k - j,
            {
                head.push(s[j]);
                assert(head@ =~= s@.subrange(0, j + 1));
                j += 1;
            }
            let mut tail: Vec<char> = Vec::new();
            let mut t: usize = k + 1;
            while t < s.len()
                invariant
                    k + 1 <= t <= s.len(),
                    tail@ == s@.subrange(k + 1, t as int),
                decreases s.len() - t,
            {
                tail.push(s[t]);
                assert(tail@ =~= s@.subrange(k + 1, t + 1));
                t += 1;
            }
            assert(tail@ =~= s@.subrange(k + 1, s@.len() as int));
            let rest = split_lines(&tail);
            let mut r: Vec<Vec<char>> = Vec::new();
            r.push(head);
            let mut ri: usize = 0;
            while ri < rest.len()
                invariant
                    ri <= rest.len(),
                    r@.len() == ri + 1,
                    k < s@.len(),
                    r@[0]@ == s@.subrange(0, k as int),
                    forall|j: int| 1 <= j <= ri ==> r@[j]@ == #[trigger] rest@[j - 1]@,
                decreases rest.len() - ri,
            {
                let line = clone_chars(&rest[ri]);
                r.push(line);
                ri += 1;
            }
            proof {
                lemma_first_newline(s@);
                assert(s@[k as int] == '\n');
                assert(first_newline(s@) == k);
                assert(view_lines(r@) =~= seq![s@.subrange(0, k as int)] + view_lines(rest@));
                assert(view_lines(r@) == split_lines_spec(s@));
            }
            r
    }
}

/// `lex_lt` is a strict total order: exactly one of `a < b`, `b < a`,
/// `a == b` holds.
pub proof fn lemma_lex_trichotomy(a: Seq<char>, b: Seq<char>)
    ensures
        lex_lt(a, b) || lex_lt(b, a) || a == b,
        lex_lt(a, b) ==> !lex_lt(b, a) && a != b,
        lex_lt(b, a) ==> !lex_lt(a, b) && a != b,
    decreases a.len(),
{
    if a.len() > 0 && b.len() > 0 && a[0] == b[0] {
        lemma_lex_trichotomy(a.drop_first(), b.drop_first());
        if a.drop_first() == b.drop_first() {
            assert forall|i: int| 0 <= i < a.len() implies a[i] == b[i] by {
                if i > 0 {
                    assert(a.drop_first()[i - 1] == a[i]);
                    assert(b.drop_first()[i - 1] == b[i]);
                }
            }
            assert(a =~= b);
        }
        if a == b {
            assert(a.drop_first() =~= b.drop_first());
        }
    } else {
        if a.len() == 0 && b.len() == 0 {
            assert(a =~= b);
        }
        if a.len() > 0 && b.len() > 0 && (a[0] as u32) == (b[0] as u32) {
            vstd::utf8::char_u32_cast(a[0], a[0] as u32);
            vstd::utf8::char_u32_cast(b[0], b[0] as u32);
            assert(a[0] == b[0]);
        }
    }
}

/// `lex_lt` is transitive.
pub proof fn lemma_lex_transitive(a: Seq<char>, b: Seq<char>, c: Seq<char>)
    requires
        lex_lt(a, b),
        lex_lt(b, c),
    ensures
        lex_lt(a, c),
    decreases a.len() + b.len() + c.len(),
{
    if b.len() == 0 {
    } else if a.len() == 0 {
    } else if c.len() == 0 {
    } else {
        if a[0] == b[0] && b[0] == c[0] {
            lemma_lex_transitive(a.drop_first(), b.drop_first(), c.drop_first());
        }
    }
}

/// The names of `s` are strictly sorted, so pairwise distinct.
pub open spec fn names_sorted(s: Seq<Vec<char>>) -> bool {
    forall|i: int, j: int| 0 <= i < j < s.len() ==> lex_lt(s[i]@, s[j]@)
}

/// `nm` occurs among the names.
pub open spec fn contains_name(s: Seq<Vec<char>>, nm: Seq<char>) -> bool {
    exists|j: int| 0 <= j < s.len() && s[j]@ == nm
}

/// Decides `contains_name`.
pub fn contains_name_exec(list: &Vec<Vec<char>>, name: &Vec<char>) -> (r: bool)
    ensures
        r == contains_name(list@, name@),
{
    let mut j: usize = 0;
    while j < list.len()
        invariant
            j <= list.len(),
            forall|k: int| 0 <= k < j ==> list@[k]@ != name@,
        decreases list.len() - j,
    {
        if chars_eq(&list[j], name) {
            return true;
        }
        j += 1;
    }
    false
}

/// Inserts a fresh name into a sorted name list, keeping it sorted; the
/// names afterwards are exactly the old ones plus `name`.
pub fn insert_name_sorted(list: &mut Vec<Vec<char>>, name: Vec<char>)
    requires
        names_sorted(old(list)@),
        !contains_name(old(list)@, name@),
    ensures
        names_sorted(final(list)@),
        final(list)@.len() == old(list)@.len() + 1,
        forall|nm: Seq<char>|
            #[trigger] contains_name(final(list)@, nm) <==> (contains_name(old(list)@, nm) || nm
                == name@),
    {
    let mut j: usize = 0;
    while j < list.len() && chars_lt(&list[j], &name)
        invariant
            j <= list.len(),
            forall|k: int| 0 <= k < j ==> lex_lt(list@[k]@, name@),
            list == old(list),
        decreases list.len() - j,
    {
        j += 1;
    }
    proof {
        if j < list@.len() {
            lemma_lex_trichotomy(list@[j as int]@, name@);
        }
    }
    list.insert(j, name);
    proof {
        let post = list@;
        let pre = old(list)@;
        let ghost jj = j as int;
        assert forall|x: int, y: int| 0 <= x < y < post.len() implies lex_lt(post[x]@, post[y]@) by {
            if x < jj && y == jj {
            } else if x == jj && y > jj {
                if jj < pre.len() {
                    lemma_lex_trichotomy(pre[jj]@, name@);
                    if jj < y - 1 {
                        lemma_lex_transitive(name@, pre[jj]@, pre[y - 1]@);
                    }
                }
            } else if x < jj && y > jj {
            } else {
            }
        }
        assert forall|nm: Seq<char>|
            #[trigger] contains_name(post, nm) <==> (contains_name(pre, nm) || nm == name@) by {
            if contains_name(post, nm) {
                let w = choose|w: int| 0 <= w < post.len() && post[w]@ == nm;
                if w < jj {
                    assert(pre[w]@ == nm);
                } else if w > jj {
                    assert(pre[w - 1]@ == nm);
                }
            }
            if contains_name(pre, nm) {
                let w = choose|w: int| 0 <= w < pre.len() && pre[w]@ == nm;
                if w < jj {
                    assert(post[w]@ == nm);
                } else {
                    assert(post[w + 1]@ == nm);
                }
            }
            if nm == name@ {
                assert(post[jj]@ == nm);
            }
        }
    }
}

/// Removes a name from a sorted name list when present; the names
/// afterwards are exactly the old ones less `name`.
pub fn remove_name_sorted(list: &mut Vec<Vec<char>>, name: &Vec<char>)
    requires
        names_sorted(old(list)@),
    ensures
        names_sorted(final(list)@),
        final(list)@.len() >= old(list)@.len() - 1,
        forall|nm: Seq<char>|
            #[trigger] contains_name(final(list)@, nm) <==> (contains_name(old(list)@, nm) && nm
                != name@),
    {
    let mut j: usize = 0;
    while j < list.len()
        invariant
            j <= list.len(),
            names_sorted(old(list)@),
            forall|k: int| 0 <= k < j ==> list@[k]@ != name@,
            list == old(list),
        decreases list.len() - j,
    {
        if chars_eq(&list[j], name) {
            list.remove(j);
            proof {
                let post = list@;
                let pre = old(list)@;
                let ghost jj = j as int;
                pre.remove_ensures(jj);
                assert(forall|k: int| jj <= k < post.len() ==> post[k] == pre[k + 1]);
                assert(forall|k: int| 0 <= k < jj ==> post[k] == pre[k]);
                assert forall|x: int, y: int|
                    0 <= x < y < post.len() implies lex_lt(post[x]@, post[y]@) by {
                    if y < jj {
                        assert(lex_lt(pre[x]@, pre[y]@));
                    } else if x < jj {
                        assert(lex_lt(pre[x]@, pre[y + 1]@));
                    } else {
                        assert(lex_lt(pre[x + 1]@, pre[y + 1]@));
                    }
                }
                assert forall|nm: Seq<char>|
                    #[trigger] contains_name(post, nm) <==> (contains_name(pre, nm) && nm
                        != name@) by {
                    if contains_name(post, nm) {
                        let w = choose|w: int| 0 <= w < post.len() && post[w]@ == nm;
                        if w < jj {
                            assert(pre[w]@ == nm);
                        } else {
                            assert(pre[w + 1]@ == nm);
                            if nm == name@ {
                                assert(lex_lt(pre[jj]@, pre[w + 1]@));
                                lemma_lex_trichotomy(pre[jj]@, pre[w + 1]@);
                            }
                        }
                    }
                    if contains_name(pre, nm) && nm != name@ {
                        let w = choose|w: int| 0 <= w < pre.len() && pre[w]@ == nm;
                        if w < jj {
                            assert(post[w]@ == nm);
                        } else {
                            assert(w != jj);
                            assert(post[w - 1]@ == nm);
                        }
                    }
                }
            }
            return ;
        }
        j += 1;
    }
}

/// Copies a text line by line.
pub fn clone_lines(v: &Vec<Vec<char>>) -> (r: Vec<Vec<char>>)
    ensures
        view_lines(r@) == view_lines(v@),
        r@.len() == v@.len(),
{
    let mut r: Vec<Vec<char>> = Vec::new();
    let mut i: usize = 0;
    while i < v.len()
        invariant
            i <= v.len(),
            r@.len() == i,
            forall|k: int| 0 <= k < i ==> r@[k]@ == v@[k]@,
        decreases v.len() - i,
    {
        r.push(clone_chars(&v[i]));
        i += 1;
    }
    assert(view_lines(r@) =~= view_lines(v@));
    r
}

/// Copies a character vector.
pub fn clone_chars(v: &Vec<char>) -> (r: Vec<char>)
    ensures
        r@ == v@,
{
    let mut r: Vec<char> = Vec::new();
    let mut i: usize = 0;
    while i < v.len()
        invariant
            i <= v.len(),
            r@ == v@.subrange(0, i as int),
        decreases v.len() - i,
    {
        r.push(v[i]);
        assert(r@ =~= v@.subrange(0, i + 1));
        i += 1;
    }
    assert(r@ =~= v@);
    r
}

} // verus!
