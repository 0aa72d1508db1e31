use vstd::prelude::*;

verus! {

/// `p` is a prefix of `s`.
pub open spec fn has_prefix(s: Seq<char>, p: Seq<char>) -> bool {
    p.len() <= s.len() && s.subrange(0, p.len() as int) == p
}

/// `p` is a suffix of `s`.
pub open spec fn has_suffix(s: Seq<char>, p: Seq<char>) -> bool {
    p.len() <= s.len() && s.subrange(s.len() - p.len(), s.len() as int) == p
}

/// The file name of the archive made from `base_name` at `timestamp`:
/// `<base_name>_<timestamp>.zip`.
pub open spec fn zip_name(base_name: Seq<char>, timestamp: Seq<char>) -> Seq<char> {
    base_name + "_"@ + timestamp + ".zip"@
}

/// A file name belongs to the backups made under `base_name` when it starts
/// with `<base_name>_` and ends with `.zip`.
pub open spec fn is_backup_name(name: Seq<char>, base_name: Seq<char>) -> bool {
    has_prefix(name, base_name + "_"@) && has_suffix(name, ".zip"@)
}

/// Builds the archive file name `<base_name>_<timestamp>.zip`.
pub fn generate_zip_name(base_name: &str, timestamp: &str) -> (r: String)
    ensures
        r@ == zip_name(base_name@, timestamp@),
{
    let mut r = String::from_str(base_name);
    r.append("_");
    r.append(timestamp);
    r.append(".zip");
    r
}

fn starts_with_chars(s: &str, p: &str) -> (r: bool)
    ensures
        r == has_prefix(s@, p@),
{
    let n = s.unicode_len();
    let m = p.unicode_len();
    if m > n {
        return false;
    }
    let mut i: usize = 0;
    while i < m
        invariant
            n == s@.len(),
            m == p@.len(),
            m <= n,
            i <= m,
            forall|k: int| 0 <= k < i ==> s@[k] == p@[k],
        decreases m - i,
    {
        if s.get_char(i) != p.get_char(i) {
            assert(s@.subrange(0, m as int)[i as int] != p@[i as int]);
            return false;
        }
        i = i + 1;
    }
    assert(s@.subrange(0, m as int) =~= p@);
    true
}

fn ends_with_chars(s: &str, p: &str) -> (r: bool)
    ensures
        r == has_suffix(s@, p@),
{
    let n = s.unicode_len();
    let m = p.unicode_len();
    if m > n {
        return false;
    }
    let off = n - m;
    let mut i: usize = 0;
    while i < m
        invariant
            n == s@.len(),
            m == p@.len(),
            m <= n,
            off == n - m,
            i <= m,
            forall|k: int| 0 <= k < i ==> s@[off + k] == p@[k],
        decreases m - i,
    {
        if s.get_char(off + i) != p.get_char(i) {
            assert(s@.subrange(off as int, n as int)[i as int] != p@[i as int]);
            return false;
        }
        i = i + 1;
    }
    assert(s@.subrange(off as int, n as int) =~= p@);
    true
}

/// What a backup name looks like, character by character: the base name,
/// then directly an underscore, then anything, then `.zip` at the very end.
/// A name where the base is followed by any other character than `_` is not
/// a backup of that base.
pub proof fn lemma_backup_name_shape(name: Seq<char>, base_name: Seq<char>)
    ensures
        is_backup_name(name, base_name) <==> (name.len() >= base_name.len() + 5
            && (forall|i: int| 0 <= i < base_name.len() ==> name[i] == base_name[i])
            && name[base_name.len() as int] == '_'
            && name[name.len() - 4] == '.'
            && name[name.len() - 3] == 'z'
            && name[name.len() - 2] == 'i'
            && name[name.len() - 1] == 'p'),
{
    reveal_strlit("_");
    reveal_strlit(".zip");
    let pattern = base_name + "_"@;
    let b = base_name.len() as int;
    let l = name.len() as int;
    if is_backup_name(name, base_name) {
        assert(name.subrange(0, pattern.len() as int)[b] == pattern[b]);
        assert forall|i: int| 0 <= i < b implies name[i] == base_name[i] by {
            assert(name.subrange(0, pattern.len() as int)[i] == pattern[i]);
        }
        let suffix = name.subrange(l - 4, l);
        assert(suffix[0] == '.' && suffix[1] == 'z' && suffix[2] == 'i' && suffix[3] == 'p');
        if l < b + 5 {
            assert(suffix[b - (l - 4)] == name[b]);
        }
    }
    if l >= b + 5
            && (forall|i: int| 0 <= i < b ==> name[i] == base_name[i])
            && name[b as int] == '_'
            && name[l - 4] == '.'
            && name[l - 3] == 'z'
            && name[l - 2] == 'i'
            && name[l - 1] == 'p' {
        assert(name.subrange(0, pattern.len() as int) =~= pattern);
        assert(name.subrange(l - 4, l) =~= ".zip"@);
    }
}

/// Whether `name` is the file name of a backup made under `base_name`: it
/// starts with `<base_name>_` and ends with `.zip`.
pub fn is_backup_file_name(name: &str, base_name: &str) -> (r: bool)
    ensures
        r == is_backup_name(name@, base_name@),
        r <==> ({
            let name = name@;
            let base_name = base_name@;
            name.len() >= base_name.len() + 5
                && (forall|i: int| 0 <= i < base_name.len() ==> name[i] == base_name[i])
                && name[base_name.len() as int] == '_'
                && name[name.len() - 4] == '.'
                && name[name.len() - 3] == 'z'
                && name[name.len() - 2] == 'i'
                && name[name.len() - 1] == 'p'
        }),
{
    proof {
        lemma_backup_name_shape(name@, base_name@);
    }
    let mut pattern = String::from_str(base_name);
    pattern.append("_");
    starts_with_chars(name, pattern.as_str()) && ends_with_chars(name, ".zip")
}

/// Every archive name made by [`generate_zip_name`] is recognised as a backup
/// of the same base name, so the archives the tool writes are the ones its
/// rotation later considers.
pub proof fn lemma_generated_name_is_backup(base_name: Seq<char>, timestamp: Seq<char>)
    ensures
        is_backup_name(zip_name(base_name, timestamp), base_name),
{
    let name = zip_name(base_name, timestamp);
    let pattern = base_name + "_"@;
    assert(name.subrange(0, pattern.len() as int) =~= pattern);
    assert(name.subrange(name.len() - ".zip"@.len(), name.len() as int) =~= ".zip"@);
}

/// A directory entry is a backup of `base_name` when its name is readable
/// text that matches the backup name pattern.
pub open spec fn entry_is_backup(entry: Option<String>, base_name: Seq<char>) -> bool {
    match entry {
        Some(name) => is_backup_name(name@, base_name),
        None => false,
    }
}

/// `r` lists, in increasing order and without repetition, exactly the
/// positions of `names` that hold backups of `base_name`.
pub open spec fn is_backup_selection(
    names: Seq<Option<String>>,
    base_name: Seq<char>,
    r: Seq<usize>,
) -> bool {
    &&& forall|k: int|
        0 <= k < r.len() ==> #[trigger] r[k] < names.len() && entry_is_backup(
            names[r[k] as int],
            base_name,
        )
    &&& forall|a: int, b: int| 0 <= a < b < r.len() ==> r[a] < r[b]
    &&& forall|i: int|
        0 <= i < names.len() && entry_is_backup(#[trigger] names[i], base_name) ==> r.contains(
            i as usize,
        )
}

/// Picks out of the names found in the destination folder those of backups
/// made under `base_name`; a name that is not valid text (`None`) never
/// matches. Returns their positions in `names`, in order.
pub fn select_backup_files(names: &Vec<Option<String>>, base_name: &str) -> (r: Vec<usize>)
    ensures
        is_backup_selection(names@, base_name@, r@),
{
    let mut r: Vec<usize> = Vec::new();
    let mut i: usize = 0;
    while i < names.len()
        invariant
            i <= names.len(),
            forall|k: int|
                0 <= k < r@.len() ==> #[trigger] r@[k] < i && entry_is_backup(
                    names@[r@[k] as int],
                    base_name@,
                ),
            forall|a: int, b: int| 0 <= a < b < r@.len() ==> r@[a] < r@[b],
            forall|j: int|
                0 <= j < i && entry_is_backup(#[trigger] names@[j], base_name@) ==> r@.contains(
                    j as usize,
                ),
        decreases names.len() - i,
    {
        let matches = match &names[i] {
            Some(name) => is_backup_file_name(name.as_str(), base_name),
            None => false,
        };
        if matches {
            let ghost old_r = r@;
            r.push(i);
            assert(r@[r@.len() - 1] == i);
            assert forall|j: int|
                0 <= j < i + 1 && entry_is_backup(#[trigger] names@[j], base_name@) implies r@.contains(
                j as usize,
            ) by {
                if j < i {
                    let w = choose|w: int| 0 <= w < old_r.len() && old_r[w] == j as usize;
                    assert(r@[w] == j as usize);
                } else {
                    assert(r@[r@.len() - 1] == j as usize);
                }
            }
        }
        i = i + 1;
    }
    r
}

/// An archive the tool wrote under `base_name`, found among the entries of
/// the destination folder, is always among the selected backups.
pub proof fn lemma_selection_includes_generated(
    names: Seq<Option<String>>,
    base_name: Seq<char>,
    timestamp: Seq<char>,
    selected: Seq<usize>,
    i: int,
)
    requires
        is_backup_selection(names, base_name, selected),
        0 <= i < names.len(),
        names[i] is Some,
        names[i]->0@ == zip_name(base_name, timestamp),
    ensures
        selected.contains(i as usize),
{
    lemma_generated_name_is_backup(base_name, timestamp);
}

} // verus!
