//! Which file of a directory is the log to follow.

use vstd::prelude::*;

verus! {

/// What the name of a log file begins with.
pub const LOG_FILE_PREFIX: &'static str = "output_log_";

/// What the name of a log file ends with.
pub const LOG_FILE_SUFFIX: &'static str = ".txt";

/// Where the logs lie below a home directory.
pub const LOG_DIR_BELOW_HOME: &'static str =
    "/.steam/steam/steamapps/compatdata/438100/pfx/drive_c/users/steamuser/AppData/LocalLow/VRChat/VRChat";

/// Whether `text` begins with `prefix`.
pub open spec fn begins_with(text: Seq<char>, prefix: Seq<char>) -> bool {
    prefix.len() <= text.len() && text.take(prefix.len() as int) == prefix
}

/// Whether `text` ends with `suffix`.
pub open spec fn ends_with(text: Seq<char>, suffix: Seq<char>) -> bool {
    suffix.len() <= text.len() && text.skip(text.len() - suffix.len()) == suffix
}

/// Whether a file of this name is a log.
pub open spec fn is_log_file_name(name: Seq<char>) -> bool {
    begins_with(name, LOG_FILE_PREFIX@) && ends_with(name, LOG_FILE_SUFFIX@)
}

/// Whether `a` comes before `b` in the order of a dictionary, when the
/// first `from` characters of both are the same. Characters are ordered by
/// their code points.
pub open spec fn comes_before_from(a: Seq<char>, b: Seq<char>, from: int) -> bool
    decreases a.len() - from,
{
    if from >= b.len() {
        false
    } else if from >= a.len() {
        true
    } else if a[from] != b[from] {
        (a[from] as u32) < (b[from] as u32)
    } else {
        comes_before_from(a, b, from + 1)
    }
}

/// Whether `a` comes before `b` in the order of a dictionary.
pub open spec fn comes_before(a: Seq<char>, b: Seq<char>) -> bool {
    comes_before_from(a, b, 0)
}

/// Whether `names[i]` is the log to follow: the log file whose name comes
/// last, and the first of those in `names` if several bear that name.
pub open spec fn is_latest_log(names: Seq<Seq<char>>, i: int) -> bool {
    &&& 0 <= i < names.len()
    &&& is_log_file_name(names[i])
    &&& forall|j: int|
        0 <= j < names.len() && is_log_file_name(#[trigger] names[j]) ==> !comes_before(
            names[i],
            names[j],
        )
    &&& forall|j: int|
        0 <= j < i && is_log_file_name(#[trigger] names[j]) ==> comes_before(names[j], names[i])
}

/// Decides whether `text` begins with `prefix`.
pub fn has_prefix(text: &str, prefix: &str) -> (yes: bool)
    ensures
        yes == begins_with(text@, prefix@),
{
    let n: usize = prefix.unicode_len();
    if n > text.unicode_len() {
        return false;
    }
    let mut i: usize = 0;
    while i < n
        invariant
            i <= n,
            n == prefix@.len(),
            n <= text@.len(),
            forall|j: int| 0 <= j < i ==> text@[j] == prefix@[j],
        decreases n - i,
    {
        if text.get_char(i) != prefix.get_char(i) {
            assert(text@.take(n as int)[i as int] != prefix@[i as int]);
            return false;
        }
        i = i + 1;
    }
    assert(text@.take(n as int) =~= prefix@);
    true
}

/// Decides whether `text` ends with `suffix`.
pub fn has_suffix(text: &str, suffix: &str) -> (yes: bool)
    ensures
        yes == ends_with(text@, suffix@),
{
    let n: usize = suffix.unicode_len();
    let len: usize = text.unicode_len();
    if n > len {
        return false;
    }
    let start: usize = len - n;
    let mut i: usize = 0;
    while i < n
        invariant
            i <= n,
            n == suffix@.len(),
            len == text@.len(),
            start == len - n,
            forall|j: int| 0 <= j < i ==> text@[start + j] == suffix@[j],
        decreases n - i,
    {
        if text.get_char(start + i) != suffix.get_char(i) {
            assert(text@.skip(start as int)[i as int] != suffix@[i as int]);
            return false;
        }
        i = i + 1;
    }
    assert(text@.skip(start as int) =~= suffix@);
    true
}

/// Decides whether a file of this name is a log.
pub fn is_log_file(name: &str) -> (yes: bool)
    ensures
        yes == is_log_file_name(name@),
{
    has_prefix(name, LOG_FILE_PREFIX) && has_suffix(name, LOG_FILE_SUFFIX)
}

/// Decides whether `a` comes before `b` in the order of a dictionary.
pub fn is_before(a: &str, b: &str) -> (yes: bool)
    ensures
        yes == comes_before(a@, b@),
{
    let a_len: usize = a.unicode_len();
    let b_len: usize = b.unicode_len();
    let mut i: usize = 0;
    while i < a_len && i < b_len
        invariant
            a_len == a@.len(),
            b_len == b@.len(),
            i <= a_len,
            i <= b_len,
            comes_before(a@, b@) == comes_before_from(a@, b@, i as int),
        decreases a_len - i,
    {
        let x = a.get_char(i);
        let y = b.get_char(i);
        if x != y {
            return (x as u32) < (y as u32);
        }
        i = i + 1;
    }
    i < b_len
}

/// Picks the log to follow among the files of these names: the position of
/// the log file whose name comes last, if there is a log file at all.
pub fn get_latest_vrc_log_file(names: &Vec<String>) -> (latest: Option<usize>)
    ensures
        match latest {
            Some(i) => is_latest_log(names.deep_view(), i as int),
            None => forall|j: int|
                0 <= j < names.len() ==> !is_log_file_name(#[trigger] names.deep_view()[j]),
        },
{
    let ghost all = names.deep_view();
    let mut latest: Option<usize> = None;
    let mut k: usize = 0;
    assert(all.len() == names@.len());
    while k < names.len()
        invariant
            k <= names.len(),
            all == names.deep_view(),
            all.len() == names@.len(),
            match latest {
                Some(i) => is_latest_log(all.take(k as int), i as int),
                None => forall|j: int| 0 <= j < k ==> !is_log_file_name(#[trigger] all[j]),
            },
        decreases names.len() - k,
    {
        let ghost before = all.take(k as int);
        let ghost after = all.take(k + 1);
        assert(all[k as int] == names@[k as int]@);
        assert(forall|j: int| 0 <= j < k ==> after[j] == before[j]);
        assert(after[k as int] == all[k as int]);
        let name = names[k].as_str();
        if is_log_file(name) {
            match latest {
                None => {
                    proof {
                        lemma_not_before_itself(all[k as int], 0);
                    }
                    latest = Some(k);
                },
                Some(i) => {
                    assert(before[i as int] == all[i as int]);
                    assert(all[i as int] == names@[i as int]@);
                    if is_before(names[i].as_str(), name) {
                        proof {
                            lemma_not_before_itself(all[k as int], 0);
                            assert forall|j: int|
                                0 <= j < after.len() && is_log_file_name(
                                    #[trigger] after[j],
                                ) implies !comes_before(after[k as int], after[j]) by {
                                if j < k && comes_before(after[k as int], after[j]) {
                                    lemma_order_is_transitive(
                                        after[i as int],
                                        after[k as int],
                                        after[j],
                                    );
                                }
                            }
                            assert forall|j: int|
                                0 <= j < k && is_log_file_name(
                                    #[trigger] after[j],
                                ) implies comes_before(after[j], after[k as int]) by {
                                lemma_order_is_total(after[j], after[i as int]);
                                if after[j] != after[i as int] {
                                    lemma_order_is_transitive(
                                        after[j],
                                        after[i as int],
                                        after[k as int],
                                    );
                                }
                            }
                        }
                        latest = Some(k);
                    }
                },
            }
        }
        k = k + 1;
    }
    assert(all.take(k as int) =~= all);
    latest
}

/// No text comes before itself.
pub proof fn lemma_not_before_itself(a: Seq<char>, from: int)
    requires
        0 <= from,
    ensures
        !comes_before_from(a, a, from),
    decreases a.len() - from,
{
    if from < a.len() {
        lemma_not_before_itself(a, from + 1);
    }
}

/// Of two texts one comes before the other, or they are the same.
pub proof fn lemma_order_is_total(a: Seq<char>, b: Seq<char>)
    ensures
        comes_before(a, b) || comes_before(b, a) || a == b,
{
    assert(a.take(0) =~= b.take(0));
    lemma_order_is_total_from(a, b, 0);
}

/// Of two texts that agree on their first `from` characters, one comes
/// before the other, or they are the same.
pub proof fn lemma_order_is_total_from(a: Seq<char>, b: Seq<char>, from: int)
    requires
        0 <= from <= a.len(),
        from <= b.len(),
        a.take(from) == b.take(from),
    ensures
        comes_before_from(a, b, from) || comes_before_from(b, a, from) || a == b,
    decreases a.len() - from,
{
    if from < a.len() && from < b.len() {
        if a[from] == b[from] {
            assert(a.take(from + 1) =~= a.take(from).push(a[from]));
            assert(b.take(from + 1) =~= b.take(from).push(b[from]));
            lemma_order_is_total_from(a, b, from + 1);
        } else {
            lemma_code_points_differ(a[from], b[from]);
        }
    } else if from == a.len() && from == b.len() {
        assert(a.take(from) =~= a);
        assert(b.take(from) =~= b);
    }
}

/// Two characters that differ have code points that differ.
pub proof fn lemma_code_points_differ(x: char, y: char)
    requires
        x != y,
    ensures
        x as u32 != y as u32,
{
    assert(x as u32 as char == x);
    assert(y as u32 as char == y);
}

/// What comes before something that comes before a third text comes before
/// that text.
pub proof fn lemma_order_is_transitive(a: Seq<char>, b: Seq<char>, c: Seq<char>)
    requires
        comes_before(a, b),
        comes_before(b, c),
    ensures
        comes_before(a, c),
{
    lemma_order_is_transitive_from(a, b, c, 0);
}

/// Transitivity of the order for texts compared from `from` on.
pub proof fn lemma_order_is_transitive_from(a: Seq<char>, b: Seq<char>, c: Seq<char>, from: int)
    requires
        0 <= from,
        comes_before_from(a, b, from),
        comes_before_from(b, c, from),
    ensures
        comes_before_from(a, c, from),
    decreases a.len() - from,
{
    if from < a.len() && from < b.len() && from < c.len() {
        if a[from] == b[from] && b[from] == c[from] {
            lemma_order_is_transitive_from(a, b, c, from + 1);
        }
    }
}

/// The directory of the logs below the home directory `home`.
pub fn get_vrc_log_file_dir(home: &str) -> (dir: String)
    ensures
        dir@ == home@ + LOG_DIR_BELOW_HOME@,
{
    let mut dir = home.to_owned();
    dir.append(LOG_DIR_BELOW_HOME);
    dir
}

} // verus!
