//! The rules by which a process reads its environment: how an entry of the
//! environment block splits into a name and a value, how a list of paths is
//! split and joined, and which directory a variable names. Names, values and
//! paths are byte strings, as the system hands them over.

use vstd::prelude::*;

verus! {

/// The byte that separates the paths of a list.
pub const PATH_SEPARATOR: u8 = 58;

/// The byte that separates a variable's name from its value.
pub const NAME_SEPARATOR: u8 = 61;

/// The index of the first `b` in `s`, or the length of `s` where there is
/// none.
pub open spec fn find_byte(s: Seq<u8>, b: u8) -> int
    decreases s.len(),
{
    if s.len() == 0 {
        0
    } else if s[0] == b {
        0
    } else {
        1 + find_byte(s.skip(1), b)
    }
}

/// `find_byte` is the one index with no `b` before it that holds a `b` or
/// is the end.
pub proof fn lemma_find_byte(s: Seq<u8>, b: u8, k: int)
    requires
        0 <= k <= s.len(),
        forall|j: int| 0 <= j < k ==> s[j] != b,
        k == s.len() || s[k] == b,
    ensures
        find_byte(s, b) == k,
    decreases s.len(),
{
    if s.len() > 0 && s[0] != b {
        lemma_find_byte(s.skip(1), b, k - 1);
    }
}

/// `find_byte` stays within the sequence, finds only `b`, and passes none.
pub proof fn lemma_find_byte_found(s: Seq<u8>, b: u8)
    ensures
        0 <= find_byte(s, b) <= s.len(),
        find_byte(s, b) < s.len() ==> s[find_byte(s, b)] == b,
        forall|j: int| 0 <= j < find_byte(s, b) ==> s[j] != b,
    decreases s.len(),
{
    if s.len() > 0 && s[0] != b {
        lemma_find_byte_found(s.skip(1), b);
        assert forall|j: int| 0 <= j < find_byte(s, b) implies s[j] != b by {
            if j > 0 {
                assert(s.skip(1)[j - 1] == s[j]);
            }
        }
    }
}

/// The index of the first `b` in `s`, or the length of `s`.
pub fn position(s: &[u8], b: u8) -> (k: usize)
    ensures
        k == find_byte(s@, b),
{
    let n = s.len();
    let mut k: usize = 0;
    while k < n && s[k] != b
        invariant
            n == s@.len(),
            k <= n,
            forall|j: int| 0 <= j < k ==> s@[j] != b,
        decreases n - k,
    {
        k += 1;
    }
    proof {
        lemma_find_byte(s@, b, k as int);
    }
    k
}

/// An entry of the environment block as a name and a value: the name runs
/// up to the first `=`, the value from there on. An entry without `=` is a
/// name with an empty value.
pub open spec fn split_entry(entry: Seq<u8>) -> (Seq<u8>, Seq<u8>) {
    let k = find_byte(entry, NAME_SEPARATOR);
    (
        entry.take(k),
        if k < entry.len() {
            entry.skip(k + 1)
        } else {
            Seq::empty()
        },
    )
}

/// Splits an entry of the environment block into its name and its value.
pub fn parse(input: &[u8]) -> (pair: (Vec<u8>, Vec<u8>))
    ensures
        (pair.0@, pair.1@) == split_entry(input@),
{
    let n = input.len();
    let k = position(input, NAME_SEPARATOR);
    proof {
        lemma_find_byte_found(input@, NAME_SEPARATOR);
    }
    let key = vstd::slice::slice_to_vec(vstd::slice::slice_subrange(input, 0, k));
    let val = if k < n {
        vstd::slice::slice_to_vec(vstd::slice::slice_subrange(input, k + 1, n))
    } else {
        Vec::new()
    };
    (key, val)
}

/// The variables of an environment, each a name with its value, in the
/// order of the environment block.
pub struct Vars {
    // What is still to come, the last to come first.
    rest: Vec<(Vec<u8>, Vec<u8>)>,
}

impl Vars {
    /// The variables still to come, in order.
    pub closed spec fn remaining(&self) -> Seq<(Seq<u8>, Seq<u8>)> {
        Seq::new(
            self.rest@.len(),
            |i: int|
                {
                    let pair = self.rest@[self.rest@.len() - 1 - i];
                    (pair.0@, pair.1@)
                },
        )
    }

    /// The next variable, or `None` when there is none left.
    pub fn next(&mut self) -> (item: Option<(Vec<u8>, Vec<u8>)>)
        ensures
            match item {
                None => {
                    &&& old(self).remaining().len() == 0
                    &&& final(self).remaining() == old(self).remaining()
                },
                Some(pair) => {
                    &&& old(self).remaining().len() > 0
                    &&& (pair.0@, pair.1@) == old(self).remaining()[0]
                    &&& final(self).remaining() == old(self).remaining().skip(1)
                },
            },
    {
        self.rest.pop()
    }

    /// How many variables are still to come, as a lower and an upper bound.
    pub fn size_hint(&self) -> (hint: (usize, Option<usize>))
        ensures
            hint.0 == self.remaining().len(),
            hint.1 == Some(hint.0),
    {
        let n = self.rest.len();
        (n, Some(n))
    }
}

/// The variables that the entries of an environment block define, one for
/// each entry, in the order of the block.
pub fn vars(environ: &Vec<Vec<u8>>) -> (v: Vars)
    ensures
        v.remaining().len() == environ@.len(),
        forall|i: int| 0 <= i < environ@.len() ==> v.remaining()[i] == split_entry(environ@[i]@),
{
    let n = environ.len();
    let mut rest: Vec<(Vec<u8>, Vec<u8>)> = Vec::new();
    let mut i: usize = n;
    while i > 0
        invariant
            n == environ@.len(),
            i <= n,
            rest@.len() == n - i,
            forall|j: int|
                0 <= j < rest@.len() ==> (#[trigger] rest@[j].0@, rest@[j].1@) == split_entry(
                    environ@[n - 1 - j]@,
                ),
        decreases i,
    {
        i -= 1;
        let pair = parse(environ[i].as_slice());
        rest.push(pair);
    }
    Vars { rest }
}

/// The byte strings that a list of byte vectors holds.
pub open spec fn paths_view(paths: Seq<Vec<u8>>) -> Seq<Seq<u8>> {
    Seq::new(paths.len(), |i: int| paths[i]@)
}

/// The pieces of `s` between its occurrences of `b`: one more piece than
/// there are occurrences, so an empty `s` has one empty piece.
pub open spec fn split_at_byte(s: Seq<u8>, b: u8) -> Seq<Seq<u8>>
    decreases s.len(),
{
    let k = find_byte(s, b);
    if 0 <= k < s.len() {
        seq![s.take(k)] + split_at_byte(s.skip(k + 1), b)
    } else {
        seq![s]
    }
}

/// The `pieces` in order, with one `b` between each two neighbours.
pub open spec fn joined(pieces: Seq<Seq<u8>>, b: u8) -> Seq<u8>
    decreases pieces.len(),
{
    if pieces.len() == 0 {
        Seq::empty()
    } else if pieces.len() == 1 {
        pieces[0]
    } else {
        pieces[0] + seq![b] + joined(pieces.skip(1), b)
    }
}

/// Splits a list of paths at each separator `:`.
pub fn split_paths(unparsed: &[u8]) -> (paths: Vec<Vec<u8>>)
    ensures
        paths_view(paths@) == split_at_byte(unparsed@, PATH_SEPARATOR),
{
    let mut paths: Vec<Vec<u8>> = Vec::new();
    let mut rest = unparsed;
    loop
        invariant
            paths_view(paths@) + split_at_byte(rest@, PATH_SEPARATOR) == split_at_byte(
                unparsed@,
                PATH_SEPARATOR,
            ),
        decreases rest@.len(),
    {
        let n = rest.len();
        let k = position(rest, PATH_SEPARATOR);
        if k >= n {
            paths.push(vstd::slice::slice_to_vec(rest));
            return paths;
        }
        paths.push(vstd::slice::slice_to_vec(vstd::slice::slice_subrange(rest, 0, k)));
        rest = vstd::slice::slice_subrange(rest, k + 1, n);
    }
}

/// A list of paths could not be joined: one of them holds the separator.
#[derive(Copy, Clone, Debug, PartialEq, Eq)]
pub struct JoinPathsError {
    _priv: (),
}

impl JoinPathsError {
    /// What went wrong, in a few words.
    pub fn description(&self) -> (text: &'static str)
        ensures
            text == "failed to join paths",
    {
        "failed to join paths"
    }
}

/// Some path of the list holds the separator.
pub open spec fn has_separator(paths: Seq<Seq<u8>>) -> bool {
    exists|i: int| 0 <= i < paths.len() && (#[trigger] paths[i]).contains(PATH_SEPARATOR)
}

/// Appending one more piece appends a separator and the piece.
pub proof fn lemma_joined_push(pieces: Seq<Seq<u8>>, b: u8, i: int)
    requires
        1 <= i < pieces.len(),
    ensures
        joined(pieces.take(i + 1), b) == joined(pieces.take(i), b) + seq![b] + pieces[i],
    decreases i,
{
    let longer = pieces.take(i + 1);
    let shorter = pieces.take(i);
    assert(longer.skip(1) =~= pieces.skip(1).take(i));
    assert(shorter.skip(1) =~= pieces.skip(1).take(i - 1));
    if i == 1 {
        assert(joined(longer.skip(1), b) == pieces[1]);
    } else {
        lemma_joined_push(pieces.skip(1), b, i - 1);
    }
}

/// Joins a list of paths with the separator `:` between them. A path that
/// holds the separator itself cannot be part of such a list.
pub fn join_paths(paths: &Vec<Vec<u8>>) -> (r: Result<Vec<u8>, JoinPathsError>)
    ensures
        r is Err <==> has_separator(paths_view(paths@)),
        r matches Ok(list) ==> list@ == joined(paths_view(paths@), PATH_SEPARATOR),
{
    let mut list: Vec<u8> = Vec::new();
    let n = paths.len();
    let ghost view = paths_view(paths@);
    let mut i: usize = 0;
    while i < n
        invariant
            n == paths@.len(),
            i <= n,
            view == paths_view(paths@),
            list@ == joined(view.take(i as int), PATH_SEPARATOR),
            forall|j: int| 0 <= j < i ==> !(#[trigger] view[j]).contains(PATH_SEPARATOR),
        decreases n - i,
    {
        let path = paths[i].as_slice();
        if i > 0 {
            list.push(PATH_SEPARATOR);
        }
        proof {
            lemma_find_byte_found(path@, PATH_SEPARATOR);
        }
        if position(path, PATH_SEPARATOR) < path.len() {
            proof {
                assert(view[i as int].contains(PATH_SEPARATOR));
            }
            return Err(JoinPathsError { _priv: () });
        }
        list.extend_from_slice(path);
        proof {
            if i > 0 {
                lemma_joined_push(view, PATH_SEPARATOR, i as int);
            }
        }
        i += 1;
    }
    proof {
        assert(view.take(n as int) =~= view);
    }
    Ok(list)
}

/// A list of paths that was joined splits into the same paths again,
/// provided there is at least one path and none holds the separator.
pub proof fn law_split_undoes_join(paths: Seq<Seq<u8>>)
    requires
        paths.len() > 0,
        !has_separator(paths),
    ensures
        split_at_byte(joined(paths, PATH_SEPARATOR), PATH_SEPARATOR) == paths,
    decreases paths.len(),
{
    let first = paths[0];
    if paths.len() == 1 {
        lemma_find_byte(first, PATH_SEPARATOR, first.len() as int);
    } else {
        let rest = paths.skip(1);
        let list = joined(paths, PATH_SEPARATOR);
        assert forall|i: int| 0 <= i < rest.len() implies !(#[trigger] rest[i]).contains(
            PATH_SEPARATOR,
        ) by {
        }
        law_split_undoes_join(rest);
        lemma_find_byte(list, PATH_SEPARATOR, first.len() as int);
        assert(list.take(first.len() as int) =~= first);
        assert(list.skip(first.len() as int + 1) =~= joined(rest, PATH_SEPARATOR));
    }
}

/// The directory that a variable names: its value, unless the variable is
/// unset or empty.
pub open spec fn named_dir(value: Option<Vec<u8>>) -> Option<Seq<u8>> {
    match value {
        Some(path) => if path@.len() == 0 {
            None
        } else {
            Some(path@)
        },
        None => None,
    }
}

/// The directory that a variable with the value `value` names, if any.
pub fn env_path(value: Option<Vec<u8>>) -> (dir: Option<Vec<u8>>)
    ensures
        match dir {
            Some(path) => named_dir(value) == Some(path@),
            None => named_dir(value) is None,
        },
{
    match value {
        Some(path) => if path.len() == 0 {
            None
        } else {
            Some(path)
        },
        None => None,
    }
}

/// The home directory of the current user, given the value of the variable
/// `HOME`: the directory that it names, if it names one.
pub fn home_dir(home: Option<Vec<u8>>) -> (dir: Option<Vec<u8>>)
    ensures
        match dir {
            Some(path) => named_dir(home) == Some(path@),
            None => named_dir(home) is None,
        },
{
    env_path(home)
}

/// The directory for temporary files, given the value of the variable
/// `TMPDIR`: the directory that it names, and `/tmp` if it names none.
pub fn temp_dir(tmpdir: Option<Vec<u8>>) -> (dir: Vec<u8>)
    ensures
        dir@ == match named_dir(tmpdir) {
            Some(path) => path,
            None => seq![47u8, 116u8, 109u8, 112u8],
        },
{
    match env_path(tmpdir) {
        Some(path) => path,
        None => {
            let dir = vec![47u8, 116u8, 109u8, 112u8];
            dir
        },
    }
}

} // verus!
