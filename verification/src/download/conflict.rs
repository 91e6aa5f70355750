//! Conflict resolution: from a wanted path to one that no file has yet.

use vstd::prelude::*;
use vstd::set_lib::{lemma_int_range, lemma_len_subset, lemma_map_size, set_int_range};
use crate::path::{directory_part, file_name_part, lemma_path_parts, name_start, split_path};
use crate::text::{
    concat, decimal, decimal_chars, from_chars, is_digit, is_digits, last_char,
    lemma_decimal_injective, lemma_decimal_reads_back, lemma_last_char_before, rfind_char,
    same_chars, slice, texts, to_chars,
};

verus! {

/// What may follow `.tar.` in a compound extension.
pub open spec fn is_archive_tail(tail: Seq<char>) -> bool {
    tail == "gz"@ || tail == "xz"@ || tail == "bz2"@ || tail == "lz"@ || tail == "lzma"@ || tail
        == "lzo"@ || tail == "lz4"@ || tail == "Z"@
}

/// Index of the `.` with which the extension of `name` begins. Where `name`
/// ends in `.tar.` and an archive tail (`.tar.gz`, `.tar.xz`, `.tar.bz2`,
/// `.tar.lz`, `.tar.lzma`, `.tar.lzo`, `.tar.lz4`, `.tar.Z`), the extension is
/// that whole ending; otherwise it begins at the last `.`, unless that is the
/// first character of the name. `None` where the name has no extension.
pub open spec fn extension_start(name: Seq<char>) -> Option<int> {
    match last_char(name, '.') {
        Some(d) => if d >= 4 && name.subrange(d - 4, d) == ".tar"@ && is_archive_tail(
            name.subrange(d + 1, name.len() as int),
        ) {
            Some(d - 4)
        } else if d > 0 {
            Some(d)
        } else {
            None
        },
        None => None,
    }
}

/// The extension of `name` with its leading `.`, or the empty text.
pub open spec fn extension_suffix(name: Seq<char>) -> Seq<char> {
    match extension_start(name) {
        Some(d) => name.subrange(d, name.len() as int),
        None => Seq::<char>::empty(),
    }
}

/// What stands before the extension of `name`.
pub open spec fn stem_of(name: Seq<char>) -> Seq<char> {
    match extension_start(name) {
        Some(d) => name.subrange(0, d),
        None => name,
    }
}

/// Digits that write a positive number: at least one digit, and not all zero.
pub open spec fn is_positive_number(digits: Seq<char>) -> bool {
    is_digits(digits) && exists|k: int| 0 <= k < digits.len() && #[trigger] digits[k] != '0'
}

/// Index at which a numbering ` (N)`, with N a positive number, begins at the
/// end of `stem`.
pub open spec fn numbering_start(stem: Seq<char>) -> Option<int> {
    match last_char(stem, '(') {
        Some(p) => if p >= 1 && stem[p - 1] == ' ' && p + 3 <= stem.len() && stem.last() == ')'
            && is_positive_number(stem.subrange(p + 1, stem.len() - 1)) {
            Some(p - 1)
        } else {
            None
        },
        None => None,
    }
}

/// `stem` without a numbering at its end.
pub open spec fn base_of(stem: Seq<char>) -> Seq<char> {
    match numbering_start(stem) {
        Some(p) => stem.subrange(0, p),
        None => stem,
    }
}

/// The numbering ` (i)`.
pub open spec fn numbering(i: nat) -> Seq<char> {
    seq![' ', '('] + decimal(i) + seq![')']
}

/// The three parts of a path between which a numbering is placed.
pub struct PathParts {
    /// Up to and including the last `/`.
    pub directory: Seq<char>,
    /// The file name without its extension and without a numbering.
    pub base: Seq<char>,
    /// The extension with its leading `.`, or the empty text.
    pub suffix: Seq<char>,
}

/// The parts of `path`.
pub open spec fn parts_of(path: Seq<char>) -> PathParts {
    let name = file_name_part(path);
    PathParts {
        directory: directory_part(path),
        base: base_of(stem_of(name)),
        suffix: extension_suffix(name),
    }
}

/// The `i`-th candidate: the base numbered `i`, in the same directory and
/// with the same extension.
pub open spec fn candidate(parts: PathParts, i: nat) -> Seq<char> {
    parts.directory + parts.base + numbering(i) + parts.suffix
}

/// `result` is the first of the candidates numbered 1, 2, 3, ... of `path`
/// that is not among `taken`.
pub open spec fn is_conflict_free_path(
    path: Seq<char>,
    taken: Seq<Seq<char>>,
    result: Seq<char>,
) -> bool {
    exists|i: nat|
        i >= 1 && result == #[trigger] candidate(parts_of(path), i) && !taken.contains(result)
            && forall|j: nat| 1 <= j < i ==> taken.contains(#[trigger] candidate(parts_of(path), j))
}

/// An archive tail holds no `.`, no `/` and is not empty.
proof fn lemma_archive_tail(tail: Seq<char>)
    requires
        is_archive_tail(tail),
    ensures
        tail.len() > 0,
        forall|k: int| 0 <= k < tail.len() ==> tail[k] != '.' && tail[k] != '/',
{
    reveal_strlit("gz");
    reveal_strlit("xz");
    reveal_strlit("bz2");
    reveal_strlit("lz");
    reveal_strlit("lzma");
    reveal_strlit("lzo");
    reveal_strlit("lz4");
    reveal_strlit("Z");
}

/// Where `c` stands at `p` and nowhere after it, `p` is the last index of `c`.
proof fn lemma_last_char_is(s: Seq<char>, c: char, p: int)
    requires
        0 <= p < s.len(),
        s[p] == c,
        forall|j: int| p < j < s.len() ==> s[j] != c,
    ensures
        last_char(s, c) == Some(p),
{
    lemma_last_char_before(s, c, s.len() as int);
}

/// Where `c` stands nowhere, it has no last index.
proof fn lemma_last_char_none(s: Seq<char>, c: char)
    requires
        forall|j: int| 0 <= j < s.len() ==> s[j] != c,
    ensures
        last_char(s, c) is None,
{
    lemma_last_char_before(s, c, s.len() as int);
}

/// A numbering is ` (`, digits of a positive number, and `)`.
proof fn lemma_numbering(i: nat)
    requires
        i >= 1,
    ensures
        numbering(i).len() == decimal(i).len() + 3,
        numbering(i).len() >= 4,
        numbering(i)[0] == ' ',
        numbering(i)[1] == '(',
        numbering(i).last() == ')',
        numbering(i).subrange(2, numbering(i).len() - 1) == decimal(i),
        is_positive_number(decimal(i)),
        forall|k: int|
            0 <= k < numbering(i).len() ==> numbering(i)[k] != '.' && numbering(i)[k] != '/',
        forall|k: int| 2 <= k < numbering(i).len() ==> numbering(i)[k] != '(',
{
    lemma_decimal_reads_back(i);
    let d = decimal(i);
    let n = numbering(i);
    assert(d[0] != '0');
    assert forall|k: int| 0 <= k < n.len() implies n[k] != '.' && n[k] != '/' by {
        if 2 <= k < n.len() - 1 {
            assert(n[k] == d[k - 2]);
            assert(is_digit(d[k - 2]));
        }
    }
    assert forall|k: int| 2 <= k < n.len() implies n[k] != '(' by {
        if k < n.len() - 1 {
            assert(n[k] == d[k - 2]);
            assert(is_digit(d[k - 2]));
        }
    }
    assert(n.subrange(2, n.len() - 1) =~= d);
}

/// What holds of the parts of every path.
pub open spec fn parts_well_formed(parts: PathParts) -> bool {
    &&& parts.directory.len() > 0 ==> parts.directory.last() == '/'
    &&& forall|k: int| 0 <= k < parts.base.len() ==> parts.base[k] != '/'
    &&& forall|k: int| 0 <= k < parts.suffix.len() ==> parts.suffix[k] != '/'
    &&& {
        ||| parts.suffix.len() == 0 && forall|k: int| 1 <= k < parts.base.len() ==> parts.base[k] != '.'
        ||| parts.suffix.len() >= 1 && parts.suffix[0] == '.' && forall|k: int|
            1 <= k < parts.suffix.len() ==> parts.suffix[k] != '.'
        ||| parts.suffix.len() >= 6 && parts.suffix.subrange(0, 4) == ".tar"@ && parts.suffix[4]
            == '.' && is_archive_tail(parts.suffix.subrange(5, parts.suffix.len() as int))
    }
}

/// The parts of every path are well formed.
pub proof fn lemma_parts_of(path: Seq<char>)
    ensures
        parts_well_formed(parts_of(path)),
{
    lemma_path_parts(path);
    let name = file_name_part(path);
    let parts = parts_of(path);
    lemma_last_char_before(name, '.', name.len() as int);
    let stem = stem_of(name);
    assert(forall|k: int| 0 <= k < stem.len() ==> stem[k] == name[k]);
    assert(forall|k: int| 0 <= k < parts.base.len() ==> parts.base[k] == stem[k]);
    assert(forall|k: int| 0 <= k < parts.base.len() ==> parts.base[k] != '/');
    if parts.directory.len() > 0 {
        assert(parts.directory.last() == path[name_start(path) - 1]);
    }
    match extension_start(name) {
        Some(e) => {
            let d = last_char(name, '.')->0;
            let suffix = parts.suffix;
            assert(suffix == name.subrange(e, name.len() as int));
            assert(forall|k: int| 0 <= k < suffix.len() ==> suffix[k] == name[e + k]);
            if e == d {
                assert(suffix[0] == '.');
                assert(forall|k: int| 1 <= k < suffix.len() ==> suffix[k] != '.');
            } else {
                let tail = name.subrange(d + 1, name.len() as int);
                lemma_archive_tail(tail);
                assert(suffix.subrange(0, 4) =~= name.subrange(d - 4, d));
                assert(suffix.subrange(5, suffix.len() as int) =~= tail);
                assert(suffix[4] == '.');
            }
        },
        None => {
            assert(stem == name);
            assert(parts.suffix.len() == 0);
            assert(forall|k: int| 1 <= k < parts.base.len() ==> parts.base[k] != '.');
        },
    }
}

/// A path made of a directory part and a name without `/` splits into these.
proof fn lemma_split_joined(directory: Seq<char>, name: Seq<char>)
    requires
        directory.len() > 0 ==> directory.last() == '/',
        forall|k: int| 0 <= k < name.len() ==> name[k] != '/',
    ensures
        directory_part(directory + name) == directory,
        file_name_part(directory + name) == name,
{
    let c = directory + name;
    let dl = directory.len() as int;
    if dl > 0 {
        lemma_last_char_is(c, '/', dl - 1);
    } else {
        lemma_last_char_none(c, '/');
    }
    assert(name_start(c) == dl);
    assert(directory_part(c) =~= directory);
    assert(file_name_part(c) =~= name);
}

/// A stem that ends in `)` followed by a suffix of well-formed parts has that
/// suffix as its extension.
proof fn lemma_extension_of_numbered(stem: Seq<char>, parts: PathParts)
    requires
        parts_well_formed(parts),
        stem.len() > 0,
        stem.last() == ')',
        parts.suffix.len() == 0 ==> forall|k: int| 1 <= k < stem.len() ==> stem[k] != '.',
    ensures
        extension_suffix(stem + parts.suffix) == parts.suffix,
        stem_of(stem + parts.suffix) == stem,
{
    reveal_strlit(".tar");
    let suffix = parts.suffix;
    let name = stem + suffix;
    let sl = suffix.len() as int;
    let tl = stem.len() as int;
    if sl == 0 {
        assert(name =~= stem);
        if stem[0] == '.' {
            lemma_last_char_is(name, '.', 0);
        } else {
            lemma_last_char_none(name, '.');
        }
        assert(extension_start(name) is None);
    } else if forall|k: int| 1 <= k < sl ==> suffix[k] != '.' {
        let d = tl;
        assert(name[d] == suffix[0]);
        assert forall|j: int| d < j < name.len() implies name[j] != '.' by {
            assert(name[j] == suffix[j - tl]);
        }
        lemma_last_char_is(name, '.', d);
        assert(name[d - 1] == ')');
        if d >= 4 {
            assert(name.subrange(d - 4, d)[3] == ')');
            assert(".tar"@[3] == 'r');
        }
        assert(extension_start(name) == Some(d));
        assert(name.subrange(d, name.len() as int) =~= suffix);
        assert(name.subrange(0, d) =~= stem);
    } else {
        let tail = suffix.subrange(5, sl);
        lemma_archive_tail(tail);
        let d = tl + 4;
        assert(name[d] == suffix[4]);
        assert forall|j: int| d < j < name.len() implies name[j] != '.' by {
            assert(name[j] == suffix[j - tl]);
            assert(suffix[j - tl] == tail[j - tl - 5]);
        }
        lemma_last_char_is(name, '.', d);
        assert(name.subrange(d - 4, d) =~= suffix.subrange(0, 4));
        assert(name.subrange(d + 1, name.len() as int) =~= tail);
        assert(extension_start(name) == Some(d - 4));
        assert(name.subrange(d - 4, name.len() as int) =~= suffix);
        assert(name.subrange(0, d - 4) =~= stem);
    }
}

/// A base followed by a numbering has that numbering at its end.
proof fn lemma_base_of_numbered(base: Seq<char>, i: nat)
    requires
        i >= 1,
    ensures
        base_of(base + numbering(i)) == base,
{
    lemma_numbering(i);
    let num = numbering(i);
    let stem = base + num;
    let bl = base.len() as int;
    let p = bl + 1;
    assert(stem[p] == num[1]);
    assert forall|j: int| p < j < stem.len() implies stem[j] != '(' by {
        assert(stem[j] == num[j - bl]);
    }
    lemma_last_char_is(stem, '(', p);
    assert(stem[p - 1] == num[0]);
    assert(stem.last() == num.last());
    assert(stem.subrange(p + 1, stem.len() - 1) =~= num.subrange(2, num.len() - 1));
    assert(numbering_start(stem) == Some(bl));
    assert(stem.subrange(0, bl) =~= base);
}

/// A candidate of well-formed parts has the same parts.
pub proof fn lemma_candidate_keeps_parts(parts: PathParts, i: nat)
    requires
        parts_well_formed(parts),
        i >= 1,
    ensures
        parts_of(candidate(parts, i)) == parts,
{
    lemma_numbering(i);
    let num = numbering(i);
    let stem = parts.base + num;
    let name = stem + parts.suffix;
    let c = candidate(parts, i);
    assert(c =~= parts.directory + name);
    assert forall|k: int| 0 <= k < name.len() implies name[k] != '/' by {
        if k < parts.base.len() {
            assert(name[k] == parts.base[k]);
        } else if k < stem.len() {
            assert(name[k] == num[k - parts.base.len()]);
        } else {
            assert(name[k] == parts.suffix[k - stem.len()]);
        }
    }
    lemma_split_joined(parts.directory, name);
    if parts.suffix.len() == 0 {
        assert forall|k: int| 1 <= k < stem.len() implies stem[k] != '.' by {
            if k < parts.base.len() {
                assert(stem[k] == parts.base[k]);
            } else {
                assert(stem[k] == num[k - parts.base.len()]);
            }
        }
    }
    assert(stem.last() == num.last());
    lemma_extension_of_numbered(stem, parts);
    lemma_base_of_numbered(parts.base, i);
}

/// Candidates with different numbers are different paths.
pub proof fn lemma_candidates_differ(parts: PathParts, a: nat, b: nat)
    requires
        candidate(parts, a) == candidate(parts, b),
    ensures
        a == b,
{
    let ca = candidate(parts, a);
    let cb = candidate(parts, b);
    let from = (parts.directory.len() + parts.base.len() + 2) as int;
    assert(ca.len() == cb.len());
    assert(decimal(a).len() == decimal(b).len());
    assert(decimal(a) =~= ca.subrange(from, from + decimal(a).len()));
    assert(decimal(b) =~= cb.subrange(from, from + decimal(b).len()));
    lemma_decimal_injective(a, b);
}

/// Where the candidates numbered 1 to `n` are all taken, at least `n` paths
/// are taken.
pub proof fn lemma_taken_candidates_are_few(parts: PathParts, taken: Seq<Seq<char>>, n: nat)
    requires
        forall|j: nat| 1 <= j <= n ==> taken.contains(#[trigger] candidate(parts, j)),
    ensures
        n <= taken.len(),
{
    let numbers = set_int_range(1, n as int + 1);
    lemma_int_range(1, n as int + 1);
    let f = |j: int| candidate(parts, j as nat);
    let images = numbers.map(f);
    assert(vstd::relations::injective_on(f, numbers)) by {
        assert forall|x: int, y: int|
            numbers.contains(x) && numbers.contains(y) && #[trigger] f(x) == #[trigger] f(
                y,
            ) implies x == y by {
            lemma_candidates_differ(parts, x as nat, y as nat);
        }
    }
    lemma_map_size(numbers, images, f);
    taken.lemma_cardinality_of_set();
    assert(images.subset_of(taken.to_set())) by {
        assert forall|t: Seq<char>| images.contains(t) implies taken.to_set().contains(t) by {
            let j = choose|j: int| numbers.contains(j) && f(j) == t;
            assert(taken.contains(candidate(parts, j as nat)));
        }
    }
    lemma_len_subset(images, taken.to_set());
}

/// The result of conflict resolution is determined.
pub proof fn lemma_conflict_free_path_is_unique(
    path: Seq<char>,
    taken: Seq<Seq<char>>,
    a: Seq<char>,
    b: Seq<char>,
)
    requires
        is_conflict_free_path(path, taken, a),
        is_conflict_free_path(path, taken, b),
    ensures
        a == b,
{
    let parts = parts_of(path);
    let i = choose|i: nat|
        i >= 1 && a == #[trigger] candidate(parts, i) && !taken.contains(a) && forall|j: nat|
            1 <= j < i ==> taken.contains(#[trigger] candidate(parts, j));
    let k = choose|k: nat|
        k >= 1 && b == #[trigger] candidate(parts, k) && !taken.contains(b) && forall|j: nat|
            1 <= j < k ==> taken.contains(#[trigger] candidate(parts, j));
    if i < k {
        assert(taken.contains(candidate(parts, i)));
    }
    if k < i {
        assert(taken.contains(candidate(parts, k)));
    }
}

/// Conflict resolution is idempotent: resolving its own result, with the same
/// paths taken, gives that result again.
pub proof fn lemma_conflict_resolution_is_idempotent(
    path: Seq<char>,
    taken: Seq<Seq<char>>,
    once: Seq<char>,
    twice: Seq<char>,
)
    requires
        is_conflict_free_path(path, taken, once),
        is_conflict_free_path(once, taken, twice),
    ensures
        twice == once,
{
    let parts = parts_of(path);
    let i = choose|i: nat|
        i >= 1 && once == #[trigger] candidate(parts, i) && !taken.contains(once) && forall|
            j: nat,
        |
            1 <= j < i ==> taken.contains(#[trigger] candidate(parts, j));
    lemma_parts_of(path);
    lemma_candidate_keeps_parts(parts, i);
    assert(parts_of(once) == parts);
    lemma_conflict_free_path_is_unique(path, taken, once, twice);
}

/// Whether `tail` may follow `.tar.` in a compound extension.
fn archive_tail(tail: &Vec<char>) -> (r: bool)
    ensures
        r == is_archive_tail(tail@),
{
    same_chars(tail, &to_chars("gz")) || same_chars(tail, &to_chars("xz")) || same_chars(
        tail,
        &to_chars("bz2"),
    ) || same_chars(tail, &to_chars("lz")) || same_chars(tail, &to_chars("lzma")) || same_chars(
        tail,
        &to_chars("lzo"),
    ) || same_chars(tail, &to_chars("lz4")) || same_chars(tail, &to_chars("Z"))
}

/// Index of the `.` with which the extension of `name` begins.
fn find_extension_start(name: &Vec<char>) -> (r: Option<usize>)
    ensures
        match r {
            Some(d) => extension_start(name@) == Some(d as int) && d < name.len(),
            None => extension_start(name@) is None,
        },
{
    match rfind_char(name, '.') {
        Some(d) => {
            if d >= 4 && same_chars(&slice(name, d - 4, d), &to_chars(".tar")) && archive_tail(
                &slice(name, d + 1, name.len()),
            ) {
                Some(d - 4)
            } else if d > 0 {
                Some(d)
            } else {
                None
            }
        },
        None => None,
    }
}

/// Whether `digits` write a positive number.
fn positive_number(digits: &Vec<char>) -> (r: bool)
    ensures
        r == is_positive_number(digits@),
{
    if digits.len() == 0 {
        return false;
    }
    let mut nonzero = false;
    let mut k: usize = 0;
    while k < digits.len()
        invariant
            k <= digits.len(),
            forall|j: int| 0 <= j < k ==> is_digit(#[trigger] digits@[j]),
            nonzero == exists|j: int| 0 <= j < k && #[trigger] digits@[j] != '0',
        decreases digits.len() - k,
    {
        let c = digits[k];
        if !(c >= '0' && c <= '9') {
            assert(!is_digit(digits@[k as int]));
            return false;
        }
        if c != '0' {
            nonzero = true;
        }
        k = k + 1;
    }
    nonzero
}

/// Index at which a numbering begins at the end of `stem`.
fn find_numbering_start(stem: &Vec<char>) -> (r: Option<usize>)
    ensures
        match r {
            Some(p) => numbering_start(stem@) == Some(p as int) && p < stem.len(),
            None => numbering_start(stem@) is None,
        },
{
    match rfind_char(stem, '(') {
        Some(p) => {
            if p >= 1 && stem[p - 1] == ' ' && stem.len() - p >= 3 && stem[stem.len() - 1] == ')'
                && positive_number(&slice(stem, p + 1, stem.len() - 1)) {
                Some(p - 1)
            } else {
                None
            }
        },
        None => None,
    }
}

/// Whether `path` is one of `taken`.
fn is_taken(taken: &Vec<String>, path: &Vec<char>) -> (r: bool)
    ensures
        r == texts(taken@).contains(path@),
{
    let mut k: usize = 0;
    while k < taken.len()
        invariant
            k <= taken.len(),
            forall|j: int| 0 <= j < k ==> texts(taken@)[j] != path@,
        decreases taken.len() - k,
    {
        let t = to_chars(taken[k].as_str());
        assert(texts(taken@)[k as int] == t@);
        if same_chars(&t, path) {
            return true;
        }
        k = k + 1;
    }
    false
}

/// Gives a path that is not among `existing`: the first of the candidates
/// numbered 1, 2, 3, ... of `file_path`, which keep its directory, its
/// extension and its name without numbering.
pub fn get_conflict_free_file_path(file_path: &str, existing: &Vec<String>) -> (r: String)
    ensures
        is_conflict_free_path(file_path@, texts(existing@), r@),
{
    let path = to_chars(file_path);
    let (directory, name) = split_path(&path);
    let (stem, suffix) = match find_extension_start(&name) {
        Some(d) => (slice(&name, 0, d), slice(&name, d, name.len())),
        None => (slice(&name, 0, name.len()), Vec::new()),
    };
    assert(stem@ == stem_of(name@));
    assert(suffix@ == extension_suffix(name@));
    let base = match find_numbering_start(&stem) {
        Some(p) => slice(&stem, 0, p),
        None => stem,
    };
    let head = concat(&directory, &base);
    let ghost parts = parts_of(file_path@);
    assert(parts.directory == directory@ && parts.base == base@ && parts.suffix == suffix@);
    let mut open: Vec<char> = Vec::new();
    open.push(' ');
    open.push('(');
    let mut close: Vec<char> = Vec::new();
    close.push(')');
    let mut i: u128 = 1;
    loop
        invariant
            1 <= i <= existing.len() + 1,
            open@ == seq![' ', '('],
            close@ == seq![')'],
            head@ == parts.directory + parts.base,
            suffix@ == parts.suffix,
            parts == parts_of(file_path@),
            forall|j: nat|
                1 <= j < i ==> texts(existing@).contains(#[trigger] candidate(parts, j)),
        decreases existing.len() + 1 - i,
    {
        let number = concat(&concat(&open, &decimal_chars(i)), &close);
        let path_i = concat(&concat(&head, &number), &suffix);
        assert(path_i@ == candidate(parts, i as nat));
        if !is_taken(existing, &path_i) {
            return from_chars(&path_i);
        }
        proof {
            lemma_taken_candidates_are_few(parts, texts(existing@), i as nat);
        }
        i = i + 1;
    }
}

} // verus!
