//! Texts and paths: the order of a dictionary, the names of a path, and the
//! stem of a file name.

use vstd::prelude::*;

verus! {

/// The characters of `s`, one by one.
pub fn chars_of(s: &str) -> (v: Vec<char>)
    ensures
        v@ == s@,
{
    let mut v: Vec<char> = Vec::new();
    for c in it: s.chars()
        invariant
            it.seq() == s@,
            v@ == it.seq().take(it.index()),
    {
        v.push(c);
    }
    v
}

/// Whether `a` and `b` hold the same characters.
pub fn same_text(a: &str, b: &str) -> (r: bool)
    ensures
        r == (a@ == b@),
{
    let x = a.to_owned();
    let y = b.to_owned();
    x == y
}

/// The text `"/"`.
pub fn slash() -> (s: &'static str)
    ensures
        s@ == seq!['/'],
{
    let s = "/";
    proof {
        reveal_strlit("/");
    }
    s
}

/// Whether `a` comes strictly before `b` in the order of a dictionary, where a
/// character comes before another when its code point is the smaller one.
pub open spec fn precedes(a: Seq<char>, b: Seq<char>) -> bool
    decreases a.len(),
{
    if b.len() == 0 {
        false
    } else if a.len() == 0 {
        true
    } else if a[0] != b[0] {
        a[0] < b[0]
    } else {
        precedes(a.skip(1), b.skip(1))
    }
}

/// No text comes before itself.
pub proof fn lemma_precedes_irreflexive(a: Seq<char>)
    ensures
        !precedes(a, a),
    decreases a.len(),
{
    if a.len() > 0 {
        lemma_precedes_irreflexive(a.skip(1));
    }
}

/// What comes before a text comes before all that the text comes before.
pub proof fn lemma_precedes_transitive(a: Seq<char>, b: Seq<char>, c: Seq<char>)
    requires
        precedes(a, b),
        precedes(b, c),
    ensures
        precedes(a, c),
    decreases a.len(),
{
    if a.len() > 0 && b.len() > 0 && c.len() > 0 {
        if a[0] == b[0] && b[0] == c[0] {
            lemma_precedes_transitive(a.skip(1), b.skip(1), c.skip(1));
        }
    }
}

/// Of two different texts one comes before the other.
pub proof fn lemma_precedes_total(a: Seq<char>, b: Seq<char>)
    ensures
        precedes(a, b) || precedes(b, a) || a == b,
    decreases a.len(),
{
    if a.len() > 0 && b.len() > 0 && a[0] == b[0] {
        lemma_precedes_total(a.skip(1), b.skip(1));
        if a.skip(1) == b.skip(1) {
            assert(b =~= seq![b[0]] + b.skip(1));
        }
    }
}

/// Whether `a` comes strictly before `b` in the order of a dictionary.
pub fn text_precedes(a: &str, b: &str) -> (r: bool)
    ensures
        r == precedes(a@, b@),
{
    let x = chars_of(a);
    let y = chars_of(b);
    let mut i: usize = 0;
    proof {
        assert(x@.skip(0) =~= x@);
        assert(y@.skip(0) =~= y@);
    }
    while i < x.len() && i < y.len()
        invariant
            i <= x.len(),
            i <= y.len(),
            x@ == a@,
            y@ == b@,
            precedes(a@, b@) == precedes(x@.skip(i as int), y@.skip(i as int)),
        decreases x.len() - i,
    {
        let c = x[i];
        let d = y[i];
        proof {
            assert(x@.skip(i as int).skip(1) =~= x@.skip(i + 1));
            assert(y@.skip(i as int).skip(1) =~= y@.skip(i + 1));
        }
        if c != d {
            return c < d;
        }
        i += 1;
    }
    i < y.len()
}

/// The names of which the path `s` is made: the longest runs of characters
/// other than `/`, from left to right. Slashes at either end and runs of
/// slashes count as one.
pub open spec fn components(s: Seq<char>) -> Seq<Seq<char>>
    decreases s.len(),
{
    if s.len() == 0 {
        Seq::empty()
    } else {
        let before = components(s.drop_last());
        if s.last() == '/' {
            before
        } else if s.len() >= 2 && s[s.len() - 2] != '/' {
            before.drop_last().push(before.last().push(s.last()))
        } else {
            before.push(seq![s.last()])
        }
    }
}

/// Whether `name` can be one name of a path: it is not empty and holds no `/`.
pub open spec fn is_name(name: Seq<char>) -> bool {
    name.len() > 0 && forall|i: int| 0 <= i < name.len() ==> name[i] != '/'
}

/// Whether each of `parts` can be one name of a path.
pub open spec fn are_names(parts: Seq<Seq<char>>) -> bool {
    forall|i: int| 0 <= i < parts.len() ==> is_name(#[trigger] parts[i])
}

/// `parts`, each behind a `/`.
pub open spec fn slashed(parts: Seq<Seq<char>>) -> Seq<char>
    decreases parts.len(),
{
    if parts.len() == 0 {
        Seq::empty()
    } else {
        slashed(parts.drop_last()) + seq!['/'] + parts.last()
    }
}

/// The absolute path made of `parts`: `/` alone where there are none.
pub open spec fn rooted(parts: Seq<Seq<char>>) -> Seq<char> {
    if parts.len() == 0 {
        seq!['/']
    } else {
        slashed(parts)
    }
}

/// Whether `u` is an absolute path that does not begin with two slashes.
pub open spec fn is_rooted(u: Seq<char>) -> bool {
    &&& u.len() >= 1
    &&& u[0] == '/'
    &&& u.len() >= 2 ==> u[1] != '/'
}

/// A path made of names begins with `/` and the first character of its first name.
pub proof fn lemma_slashed_begins(parts: Seq<Seq<char>>)
    requires
        parts.len() > 0,
        are_names(parts),
    ensures
        slashed(parts).len() >= 2,
        slashed(parts)[0] == '/',
        slashed(parts)[1] == parts[0][0],
        slashed(parts).last() != '/',
    decreases parts.len(),
{
    if parts.len() == 1 {
        assert(slashed(parts.drop_last()) =~= Seq::<char>::empty());
    } else {
        lemma_slashed_begins(parts.drop_last());
    }
}

/// The absolute path made of names is rooted.
pub proof fn lemma_rooted_is_rooted(parts: Seq<Seq<char>>)
    requires
        are_names(parts),
    ensures
        is_rooted(rooted(parts)),
{
    if parts.len() > 0 {
        lemma_slashed_begins(parts);
    }
}

/// The names of which the path `s` is made.
pub fn split_path(s: &str) -> (parts: Vec<String>)
    ensures
        parts.deep_view() == components(s@),
        are_names(parts.deep_view()),
{
    let chars = chars_of(s);
    let mut parts: Vec<String> = Vec::new();
    let mut start: usize = 0;
    let mut i: usize = 0;
    while i < chars.len()
        invariant
            chars@ == s@,
            start <= i <= chars.len(),
            are_names(parts.deep_view()),
            forall|k: int| start <= k < i ==> chars@[k] != '/',
            start < i ==> (start == 0 || chars@[start - 1] == '/'),
            start == i ==> (i == 0 || chars@[i - 1] == '/'),
            components(s@.take(i as int)) == if start < i {
                parts.deep_view().push(s@.subrange(start as int, i as int))
            } else {
                parts.deep_view()
            },
        decreases chars.len() - i,
    {
        let c = chars[i];
        let ghost prefix = s@.take(i as int);
        let ghost next = s@.take(i + 1);
        let ghost done = parts.deep_view();
        proof {
            assert(next.drop_last() =~= prefix);
        }
        if c == '/' {
            if start < i {
                let part = s.substring_char(start, i).to_owned();
                parts.push(part);
                proof {
                    assert(parts.deep_view() =~= done.push(s@.subrange(start as int, i as int)));
                }
            }
            start = i + 1;
        } else {
            proof {
                if start < i {
                    let run = s@.subrange(start as int, i as int);
                    assert(run.push(c) =~= s@.subrange(start as int, i + 1));
                } else {
                    assert(seq![c] =~= s@.subrange(start as int, i + 1));
                }
            }
        }
        i += 1;
    }
    proof {
        assert(s@.take(i as int) =~= s@);
    }
    if start < i {
        let ghost done = parts.deep_view();
        let part = s.substring_char(start, i).to_owned();
        parts.push(part);
        proof {
            assert(parts.deep_view() =~= done.push(s@.subrange(start as int, i as int)));
        }
    }
    parts
}

/// The absolute path made of the names `parts[from..to]`.
pub fn rooted_path(parts: &Vec<String>, from: usize, to: usize) -> (path: String)
    requires
        from <= to <= parts.len(),
    ensures
        path@ == rooted(parts.deep_view().subrange(from as int, to as int)),
{
    let mut path = String::new();
    if from == to {
        path.append(slash());
        return path;
    }
    let mut i: usize = from;
    while i < to
        invariant
            from <= i <= to <= parts.len(),
            path@ == slashed(parts.deep_view().subrange(from as int, i as int)),
        decreases to - i,
    {
        path.append(slash());
        path.append(parts[i].as_str());
        proof {
            let wider = parts.deep_view().subrange(from as int, i + 1);
            assert(wider.drop_last() =~= parts.deep_view().subrange(from as int, i as int));
        }
        i += 1;
    }
    path
}

/// The index of the last `.` of `name`, or -1 where it holds none.
pub open spec fn last_dot(name: Seq<char>) -> int
    decreases name.len(),
{
    if name.len() == 0 {
        -1
    } else if name.last() == '.' {
        name.len() - 1
    } else {
        last_dot(name.drop_last())
    }
}

/// A file's name without its extension: what stands before the last `.`, or
/// the whole name where it holds no `.` but perhaps a leading one.
pub open spec fn stem(name: Seq<char>) -> Seq<char> {
    if last_dot(name) <= 0 {
        name
    } else {
        name.take(last_dot(name))
    }
}

/// The last `.` of a text stands inside it.
pub proof fn lemma_last_dot(name: Seq<char>)
    ensures
        -1 <= last_dot(name) < name.len(),
        last_dot(name) >= 0 ==> name[last_dot(name)] == '.',
        forall|k: int| last_dot(name) < k < name.len() ==> name[k] != '.',
    decreases name.len(),
{
    if name.len() > 0 && name.last() != '.' {
        let init = name.drop_last();
        lemma_last_dot(init);
        assert forall|k: int| last_dot(name) < k < name.len() implies name[k] != '.' by {
            if k < init.len() {
                assert(init[k] == name[k]);
            }
        }
    }
}

/// The stem of a name is a name.
pub proof fn lemma_stem_is_name(name: Seq<char>)
    requires
        is_name(name),
    ensures
        is_name(stem(name)),
{
    lemma_last_dot(name);
}

/// A file's name without its extension.
pub fn file_stem(name: &str) -> (r: String)
    ensures
        r@ == stem(name@),
{
    let chars = chars_of(name);
    let mut i: usize = chars.len();
    proof {
        assert(name@.take(name@.len() as int) =~= name@);
    }
    while i > 0
        invariant
            chars@ == name@,
            i <= chars.len(),
            last_dot(name@) == last_dot(name@.take(i as int)),
        decreases i,
    {
        proof {
            assert(name@.take(i as int).drop_last() =~= name@.take(i - 1));
        }
        if chars[i - 1] == '.' {
            if i - 1 == 0 {
                return name.to_owned();
            }
            return name.substring_char(0, i - 1).to_owned();
        }
        i -= 1;
    }
    name.to_owned()
}

} // verus!
