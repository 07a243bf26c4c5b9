//! The source files a presentation can be built from.
//!
//! A source file is identified by a display name, a filesystem path carried
//! as plain text, and a closed kind. Scanning directories for such files is
//! I/O and happens outside this library; the walk over what a scan found,
//! the suffix matching and the kind classification are specified here.

use vstd::prelude::*;

verus! {

/// The closed set of source file kinds.
#[derive(Debug, Clone, Copy, PartialEq, Eq, Structural, Hash, PartialOrd, Ord)]
pub enum SourceFileType {
    Song,
    Presentation,
    Image,
    Video,
}

/// Ghost mirror of [`SourceFile`].
pub ghost struct SourceFileView {
    pub name: Seq<char>,
    pub path: Seq<char>,
    pub file_type: SourceFileType,
}

/// The identity of one input item: display name, path and kind.
#[derive(Debug, Clone, PartialEq, Eq, Hash, PartialOrd, Ord)]
pub struct SourceFile {
    pub name: String,
    pub path: String,
    pub file_type: SourceFileType,
}

impl View for SourceFile {
    type V = SourceFileView;

    open spec fn view(&self) -> SourceFileView {
        SourceFileView { name: self.name@, path: self.path@, file_type: self.file_type }
    }
}

impl DeepView for SourceFile {
    type V = SourceFileView;

    open spec fn deep_view(&self) -> SourceFileView {
        self.view()
    }
}

impl SourceFile {
    /// An owned copy with the same content.
    pub fn duplicate(&self) -> (r: SourceFile)
        ensures
            r@ == self@,
    {
        SourceFile {
            name: self.name.clone(),
            path: self.path.clone(),
            file_type: self.file_type,
        }
    }
}

/// A wrapper around [`SourceFile`] that guarantees the file is an image.
#[derive(Debug, PartialEq, Eq, Hash, PartialOrd, Ord)]
pub struct ImageSourceFile(SourceFile);

impl View for ImageSourceFile {
    type V = SourceFileView;

    closed spec fn view(&self) -> SourceFileView {
        self.0@
    }
}

impl DeepView for ImageSourceFile {
    type V = SourceFileView;

    open spec fn deep_view(&self) -> SourceFileView {
        self.view()
    }
}

impl ImageSourceFile {
    /// Every value of this type wraps an image: the constructor refuses
    /// everything else, and nothing can change the wrapped file afterwards.
    #[verifier::type_invariant]
    closed spec fn is_image(self) -> bool {
        self.0.file_type == SourceFileType::Image
    }

    /// Wraps a source file, refusing every kind but [`SourceFileType::Image`].
    pub fn new(source_file: SourceFile) -> (r: Option<Self>)
        ensures
            r is Some <==> source_file.file_type == SourceFileType::Image,
            r matches Some(f) ==> f@ == source_file@,
    {
        if matches!(source_file.file_type, SourceFileType::Image) {
            Some(ImageSourceFile(source_file))
        } else {
            None
        }
    }

    /// The wrapped source file, which is always an image.
    pub fn into_inner(self) -> (r: SourceFile)
        ensures
            r@ == self@,
            r.file_type == SourceFileType::Image,
    {
        proof {
            use_type_invariant(&self);
        }
        self.0
    }

    /// A reference to the wrapped source file, which is always an image.
    pub fn as_source(&self) -> (r: &SourceFile)
        ensures
            r@ == self@,
            r.file_type == SourceFileType::Image,
    {
        proof {
            use_type_invariant(self);
        }
        &self.0
    }

    /// An owned copy with the same content.
    pub fn duplicate(&self) -> (r: ImageSourceFile)
        ensures
            r@ == self@,
    {
        proof {
            use_type_invariant(self);
        }
        ImageSourceFile(self.0.duplicate())
    }
}

/// Lexicographic order on text by character code.
pub open spec fn seq_char_le(a: Seq<char>, b: Seq<char>) -> bool
    decreases a.len(),
{
    if a.len() == 0 {
        true
    } else if b.len() == 0 {
        false
    } else if a[0] != b[0] {
        (a[0] as u32) < (b[0] as u32)
    } else {
        seq_char_le(a.drop_first(), b.drop_first())
    }
}

/// Every text is ordered with itself.
pub proof fn lemma_seq_char_le_refl(a: Seq<char>)
    ensures
        seq_char_le(a, a),
    decreases a.len(),
{
    if a.len() > 0 {
        lemma_seq_char_le_refl(a.drop_first());
    }
}

/// Any two texts are ordered one way or the other.
pub proof fn lemma_seq_char_le_total(a: Seq<char>, b: Seq<char>)
    ensures
        seq_char_le(a, b) || seq_char_le(b, a),
    decreases a.len(),
{
    if a.len() > 0 && b.len() > 0 {
        if a[0] == b[0] {
            lemma_seq_char_le_total(a.drop_first(), b.drop_first());
        } else {
            vstd::utf8::char_u32_cast(a[0], a[0] as u32);
            vstd::utf8::char_u32_cast(b[0], b[0] as u32);
        }
    }
}

/// Texts ordered both ways are equal.
pub proof fn lemma_seq_char_le_antisym(a: Seq<char>, b: Seq<char>)
    requires
        seq_char_le(a, b),
        seq_char_le(b, a),
    ensures
        a == b,
    decreases a.len(),
{
    if a.len() == 0 {
        assert(b.len() == 0);
        assert(a =~= b);
    } else {
        assert(a[0] == b[0]);
        lemma_seq_char_le_antisym(a.drop_first(), b.drop_first());
        assert(a.drop_first() == b.drop_first());
        assert(a.len() == b.len());
        assert forall|i: int| 0 <= i < a.len() implies a[i] == b[i] by {
            if i > 0 {
                assert(a[i] == a.drop_first()[i - 1]);
                assert(b[i] == b.drop_first()[i - 1]);
            }
        }
        assert(a =~= b);
    }
}

/// The order on texts is transitive.
pub proof fn lemma_seq_char_le_trans(a: Seq<char>, b: Seq<char>, c: Seq<char>)
    requires
        seq_char_le(a, b),
        seq_char_le(b, c),
    ensures
        seq_char_le(a, c),
    decreases a.len(),
{
    if a.len() > 0 {
        assert(b.len() > 0);
        assert(c.len() > 0);
        if a[0] == b[0] && b[0] == c[0] {
            lemma_seq_char_le_trans(a.drop_first(), b.drop_first(), c.drop_first());
        }
    }
}

/// Whether two texts are equal, character by character.
pub fn str_eq(a: &str, b: &str) -> (r: bool)
    ensures
        r == (a@ == b@),
{
    let a_len = a.unicode_len();
    let b_len = b.unicode_len();
    if a_len != b_len {
        return false;
    }
    let mut i: usize = 0;
    while i < a_len
        invariant
            i <= a_len,
            a_len == a@.len(),
            a_len == b@.len(),
            forall|j: int| 0 <= j < i ==> a@[j] == b@[j],
        decreases a_len - i,
    {
        if a.get_char(i) != b.get_char(i) {
            return false;
        }
        i = i + 1;
    }
    proof {
        assert(a@ =~= b@);
    }
    true
}

/// Compares two texts in the order of [`seq_char_le`].
pub fn str_le(a: &str, b: &str) -> (r: bool)
    ensures
        r == seq_char_le(a@, b@),
{
    let a_len = a.unicode_len();
    let b_len = b.unicode_len();
    let mut i: usize = 0;
    proof {
        assert(a@.skip(0) =~= a@);
        assert(b@.skip(0) =~= b@);
    }
    loop
        invariant
            i <= a_len,
            i <= b_len,
            a_len == a@.len(),
            b_len == b@.len(),
            seq_char_le(a@, b@) == seq_char_le(a@.skip(i as int), b@.skip(i as int)),
        decreases a_len - i,
    {
        if i >= a_len {
            return true;
        }
        if i >= b_len {
            return false;
        }
        let ca = a.get_char(i);
        let cb = b.get_char(i);
        proof {
            assert(a@.skip(i as int)[0] == a@[i as int]);
            assert(b@.skip(i as int)[0] == b@[i as int]);
        }
        if ca != cb {
            return (ca as u32) < (cb as u32);
        }
        proof {
            assert(a@.skip(i as int).drop_first() =~= a@.skip(i + 1));
            assert(b@.skip(i as int).drop_first() =~= b@.skip(i + 1));
        }
        i = i + 1;
    }
}

/// The rank of a source file kind, in declaration order.
pub open spec fn type_rank(t: SourceFileType) -> int {
    match t {
        SourceFileType::Song => 0,
        SourceFileType::Presentation => 1,
        SourceFileType::Image => 2,
        SourceFileType::Video => 3,
    }
}

/// The order source file listings are kept in: by name, then by path, then
/// by kind.
pub open spec fn source_file_le(a: SourceFileView, b: SourceFileView) -> bool {
    if a.name != b.name {
        seq_char_le(a.name, b.name)
    } else if a.path != b.path {
        seq_char_le(a.path, b.path)
    } else {
        type_rank(a.file_type) <= type_rank(b.file_type)
    }
}

/// Any two source files are ordered one way or the other.
pub proof fn lemma_source_file_le_total(a: SourceFileView, b: SourceFileView)
    ensures
        source_file_le(a, b) || source_file_le(b, a),
{
    lemma_seq_char_le_total(a.name, b.name);
    lemma_seq_char_le_total(a.path, b.path);
}

/// The order on source files is transitive.
pub proof fn lemma_source_file_le_trans(a: SourceFileView, b: SourceFileView, c: SourceFileView)
    requires
        source_file_le(a, b),
        source_file_le(b, c),
    ensures
        source_file_le(a, c),
{
    if a.name != b.name && b.name != c.name {
        lemma_seq_char_le_trans(a.name, b.name, c.name);
        if a.name == c.name {
            lemma_seq_char_le_antisym(a.name, b.name);
        }
    } else if a.name == b.name && b.name != c.name {
    } else if a.name != b.name && b.name == c.name {
    } else {
        if a.path != b.path && b.path != c.path {
            lemma_seq_char_le_trans(a.path, b.path, c.path);
            if a.path == c.path {
                lemma_seq_char_le_antisym(a.path, b.path);
            }
        }
    }
}

fn type_rank_exec(t: SourceFileType) -> (r: u8)
    ensures
        r as int == type_rank(t),
{
    match t {
        SourceFileType::Song => 0,
        SourceFileType::Presentation => 1,
        SourceFileType::Image => 2,
        SourceFileType::Video => 3,
    }
}

/// Whether two source files have the same name, path and kind.
pub fn source_file_eq(a: &SourceFile, b: &SourceFile) -> (r: bool)
    ensures
        r == (a@ == b@),
{
    a.name == b.name && a.path == b.path && a.file_type == b.file_type
}

/// Compares two source files in the order of [`source_file_le`].
pub fn source_file_le_exec(a: &SourceFile, b: &SourceFile) -> (r: bool)
    ensures
        r == source_file_le(a@, b@),
{
    if !(a.name == b.name) {
        str_le(a.name.as_str(), b.name.as_str())
    } else if !(a.path == b.path) {
        str_le(a.path.as_str(), b.path.as_str())
    } else {
        type_rank_exec(a.file_type) <= type_rank_exec(b.file_type)
    }
}

/// Sorts a source file listing by name, path and kind, and drops repeated
/// entries: the result is ordered, holds no entry twice, and holds exactly
/// the files of the input.
pub fn sort_and_dedup_source_files(files: Vec<SourceFile>) -> (r: Vec<SourceFile>)
    ensures
        forall|j: int|
            0 <= j && j + 1 < r.deep_view().len() ==> source_file_le(
                #[trigger] r.deep_view()[j],
                r.deep_view()[j + 1],
            ) && r.deep_view()[j] != r.deep_view()[j + 1],
        forall|x: SourceFileView| r.deep_view().contains(x) <==> files.deep_view().contains(x),
{
    let ghost original = files.deep_view();
    let mut remaining = files;
    let mut sorted: Vec<SourceFile> = Vec::new();
    while remaining.len() > 0
        invariant
            forall|j: int|
                0 <= j && j + 1 < sorted.deep_view().len() ==> source_file_le(
                    #[trigger] sorted.deep_view()[j],
                    sorted.deep_view()[j + 1],
                ),
            forall|i: int, j: int|
                0 <= i < sorted.deep_view().len() && 0 <= j < remaining.deep_view().len()
                    ==> source_file_le(
                    #[trigger] sorted.deep_view()[i],
                    #[trigger] remaining.deep_view()[j],
                ),
            forall|x: SourceFileView|
                (sorted.deep_view().contains(x) || remaining.deep_view().contains(x))
                    <==> original.contains(x),
        decreases remaining.len(),
    {
        let mut m: usize = 0;
        let mut j: usize = 1;
        while j < remaining.len()
            invariant
                m < j,
                1 <= j <= remaining.len(),
                forall|k: int|
                    0 <= k < j ==> source_file_le(
                        remaining.deep_view()[m as int],
                        #[trigger] remaining.deep_view()[k],
                    ),
            decreases remaining.len() - j,
        {
            if !source_file_le_exec(&remaining[m], &remaining[j]) {
                proof {
                    let dv = remaining.deep_view();
                    lemma_source_file_le_total(dv[m as int], dv[j as int]);
                    assert forall|k: int|
                        0 <= k < j + 1 implies source_file_le(
                        dv[j as int],
                        #[trigger] dv[k],
                    ) by {
                        if k < j {
                            lemma_source_file_le_trans(dv[j as int], dv[m as int], dv[k]);
                        }
                    }
                }
                m = j;
            }
            j = j + 1;
        }
        let ghost rem_before = remaining.deep_view();
        let x = remaining.remove(m);
        proof {
            assert(x@ == rem_before[m as int]);
            let rem_now = remaining.deep_view();
            assert forall|k: int| 0 <= k < rem_now.len() implies rem_now[k]
                == rem_before.remove(m as int)[k] by {
                assert(rem_now[k] == remaining@[k]@);
            }
            assert(rem_now =~= rem_before.remove(m as int));
        }
        let ghost sorted_before = sorted.deep_view();
        sorted.push(x);
        proof {
            let dv = sorted.deep_view();
            assert forall|k: int| 0 <= k < sorted_before.len() implies dv[k]
                == sorted_before[k] by {
                assert(dv[k] == sorted@[k]@);
            }
            assert(dv[sorted_before.len() as int] == sorted@[sorted_before.len() as int]@);
            assert(dv =~= sorted_before.push(x@));
            let rem_now = remaining.deep_view();
            assert forall|k: int| 0 <= k < rem_now.len() implies source_file_le(
                x@,
                #[trigger] rem_now[k],
            ) by {
                if k < m {
                    assert(rem_now[k] == rem_before[k]);
                } else {
                    assert(rem_now[k] == rem_before[k + 1]);
                }
            }
            assert forall|v: SourceFileView|
                (dv.contains(v) || rem_now.contains(v)) <==> original.contains(v) by {
                if original.contains(v) {
                    if sorted_before.contains(v) {
                        let w = choose|w: int| 0 <= w < sorted_before.len()
                            && sorted_before[w] == v;
                        assert(dv[w] == v);
                    } else {
                        assert(rem_before.contains(v));
                        let w = choose|w: int| 0 <= w < rem_before.len() && rem_before[w] == v;
                        if w == m {
                            assert(dv[sorted_before.len() as int] == v);
                        } else if w < m {
                            assert(rem_now[w] == v);
                        } else {
                            assert(rem_now[w - 1] == v);
                        }
                    }
                }
                if dv.contains(v) {
                    let w = choose|w: int| 0 <= w < dv.len() && dv[w] == v;
                    if w < sorted_before.len() {
                        assert(sorted_before[w] == v);
                    } else {
                        assert(rem_before[m as int] == v);
                    }
                }
                if rem_now.contains(v) {
                    let w = choose|w: int| 0 <= w < rem_now.len() && rem_now[w] == v;
                    if w < m {
                        assert(rem_before[w] == v);
                    } else {
                        assert(rem_before[w + 1] == v);
                    }
                }
            }
        }
    }
    let ghost sorted_dv = sorted.deep_view();
    let mut result: Vec<SourceFile> = Vec::new();
    let n = sorted.len();
    let mut k: usize = 0;
    while k < n
        invariant
            k <= n,
            n == sorted_dv.len(),
            sorted_dv == sorted.deep_view(),
            n == sorted.len(),
            forall|j: int|
                0 <= j && j + 1 < sorted_dv.len() ==> source_file_le(
                    #[trigger] sorted_dv[j],
                    sorted_dv[j + 1],
                ),
            forall|j: int|
                0 <= j && j + 1 < result.deep_view().len() ==> source_file_le(
                    #[trigger] result.deep_view()[j],
                    result.deep_view()[j + 1],
                ) && result.deep_view()[j] != result.deep_view()[j + 1],
            k > 0 ==> result.deep_view().len() > 0 && result.deep_view().last() == sorted_dv[k
                - 1],
            k == 0 ==> result.deep_view().len() == 0,
            forall|x: SourceFileView|
                result.deep_view().contains(x) <==> sorted_dv.take(k as int).contains(x),
        decreases n - k,
    {
        let ghost res_before = result.deep_view();
        let mut push_it = true;
        if result.len() > 0 {
            let last_index = result.len() - 1;
            if source_file_eq(&result[last_index], &sorted[k]) {
                push_it = false;
            }
        }
        proof {
            assert(sorted@[k as int]@ == sorted_dv[k as int]);
            if result@.len() > 0 {
                assert(result@[result@.len() - 1]@ == res_before.last());
            }
        }
        if push_it {
            let copy = sorted[k].duplicate();
            result.push(copy);
            proof {
                let dv = result.deep_view();
                assert forall|w: int| 0 <= w < res_before.len() implies dv[w]
                    == res_before[w] by {
                    assert(dv[w] == result@[w]@);
                }
                assert(dv[res_before.len() as int] == result@[res_before.len() as int]@);
                assert(dv =~= res_before.push(sorted_dv[k as int]));
            }
        }
        proof {
            let dv = result.deep_view();
            let t = sorted_dv.take(k + 1);
            assert forall|x: SourceFileView| dv.contains(x) <==> t.contains(x) by {
                if dv.contains(x) {
                    let w = choose|w: int| 0 <= w < dv.len() && dv[w] == x;
                    if w < res_before.len() {
                        assert(res_before[w] == x);
                        assert(res_before.contains(x));
                        assert(sorted_dv.take(k as int).contains(x));
                        let u = choose|u: int| 0 <= u < k && sorted_dv.take(k as int)[u] == x;
                        assert(t[u] == x);
                    } else {
                        assert(t[k as int] == x);
                    }
                }
                if t.contains(x) {
                    let w = choose|w: int| 0 <= w < t.len() && t[w] == x;
                    if w < k {
                        assert(sorted_dv.take(k as int)[w] == x);
                        assert(sorted_dv.take(k as int).contains(x));
                        assert(res_before.contains(x));
                        let u = choose|u: int| 0 <= u < res_before.len() && res_before[u] == x;
                        assert(dv[u] == x);
                    } else {
                        if push_it {
                            assert(dv[dv.len() - 1] == x);
                        } else {
                            assert(x == res_before.last());
                            assert(dv.contains(x)) by {
                                assert(dv[dv.len() - 1] == res_before.last());
                            }
                        }
                    }
                }
            }
        }
        k = k + 1;
    }
    proof {
        assert(sorted_dv.take(n as int) =~= sorted_dv);
        assert forall|x: SourceFileView|
            result.deep_view().contains(x) <==> original.contains(x) by {
            assert(remaining.deep_view().len() == 0);
        }
    }
    result
}

/// The maximal depth for recursive file searching, as a guard against
/// link loops in the scanned listing.
pub const MAX_DEPTH: usize = 6;

/// A directory listing as a value: what a filesystem scan found. The scan
/// itself is I/O and happens outside this library; the walk over the
/// listing is specified here.
#[derive(Debug, PartialEq)]
pub enum FileTree {
    /// A file with its name.
    File { name: String },
    /// A directory with its name and its entries.
    Dir { name: String, entries: Vec<FileTree> },
}

/// Whether `name` ends with `suffix`.
pub open spec fn ends_with(name: Seq<char>, suffix: Seq<char>) -> bool {
    suffix.len() <= name.len() && name.skip(name.len() - suffix.len()) == suffix
}

/// A path built from a directory path and an entry name.
pub open spec fn path_join(prefix: Seq<char>, name: Seq<char>) -> Seq<char> {
    prefix + "/"@ + name
}

/// What one file contributes to a search: its path once for every ending
/// (from `e` on) that its name ends with.
pub open spec fn file_contrib(
    name: Seq<char>,
    path: Seq<char>,
    endings: Seq<Seq<char>>,
    e: int,
) -> Seq<Seq<char>>
    decreases endings.len() - e,
{
    if e < 0 || e >= endings.len() {
        Seq::<Seq<char>>::empty()
    } else {
        (if ends_with(name, endings[e]) {
            seq![path]
        } else {
            Seq::<Seq<char>>::empty()
        }) + file_contrib(name, path, endings, e + 1)
    }
}

/// The matching file paths under a directory's entries (from entry `k` on),
/// in listing order, descending at most [`MAX_DEPTH`] levels deep.
pub open spec fn dir_files(
    entries: Seq<FileTree>,
    endings: Seq<Seq<char>>,
    dir_path: Seq<char>,
    depth: nat,
    k: int,
) -> Seq<Seq<char>>
    decreases 7 - depth, entries.len() - k,
{
    if depth > 6 {
        Seq::<Seq<char>>::empty()
    } else if k < 0 || k >= entries.len() {
        Seq::<Seq<char>>::empty()
    } else {
        (match entries[k] {
            FileTree::File { name } => file_contrib(name@, path_join(dir_path, name@), endings, 0),
            FileTree::Dir { name, entries: sub } => dir_files(
                sub@,
                endings,
                path_join(dir_path, name@),
                depth + 1,
                0,
            ),
        }) + dir_files(entries, endings, dir_path, depth, k + 1)
    }
}

fn join_path(prefix: &str, name: &str) -> (r: String)
    ensures
        r@ == path_join(prefix@, name@),
{
    let mut out = String::from_str(prefix);
    out.append("/");
    out.append(name);
    proof {
        assert(out@ =~= path_join(prefix@, name@));
    }
    out
}

/// The paths one file contributes: one copy per matching ending.
fn file_matches(name: &str, path: &str, endings: &Vec<String>) -> (r: Vec<String>)
    ensures
        r.deep_view() == file_contrib(name@, path@, endings.deep_view(), 0),
{
    let mut result: Vec<String> = Vec::new();
    let n = endings.len();
    let ghost evs = endings.deep_view();
    let mut e: usize = 0;
    proof {
        assert(evs.len() == endings@.len());
    }
    while e < n
        invariant
            e <= n,
            n == endings@.len(),
            evs == endings.deep_view(),
            file_contrib(name@, path@, evs, 0) == result.deep_view() + file_contrib(
                name@,
                path@,
                evs,
                e as int,
            ),
        decreases n - e,
    {
        let ghost res_before = result.deep_view();
        let ending = &endings[e];
        let name_len = name.unicode_len();
        let ending_len = ending.as_str().unicode_len();
        proof {
            assert(ending@ == evs[e as int]);
        }
        let is_match = if ending_len <= name_len {
            let tail = name.substring_char(name_len - ending_len, name_len);
            proof {
                assert(tail@ == name@.skip(name@.len() - ending@.len()));
            }
            str_eq(tail, ending.as_str())
        } else {
            false
        };
        if is_match {
            result.push(String::from_str(path));
            proof {
                let dv = result.deep_view();
                assert forall|w: int| 0 <= w < res_before.len() implies dv[w]
                    == res_before[w] by {
                    assert(dv[w] == result@[w]@);
                }
                assert(dv[res_before.len() as int] == result@[res_before.len() as int]@);
                assert(dv =~= res_before.push(path@));
                assert(res_before + seq![path@] =~= dv);
            }
        }
        proof {
            assert(file_contrib(name@, path@, evs, e as int) == (if ends_with(name@, evs[e as int]) {
                seq![path@]
            } else {
                Seq::<Seq<char>>::empty()
            }) + file_contrib(name@, path@, evs, e + 1));
            if !is_match {
                assert(Seq::<Seq<char>>::empty() + file_contrib(name@, path@, evs, e + 1)
                    =~= file_contrib(name@, path@, evs, e + 1));
            }
            assert(file_contrib(name@, path@, evs, 0) =~= result.deep_view() + file_contrib(
                name@,
                path@,
                evs,
                e + 1,
            ));
        }
        e = e + 1;
    }
    proof {
        assert(file_contrib(name@, path@, evs, n as int) =~= Seq::<Seq<char>>::empty());
        assert(result.deep_view() =~= result.deep_view() + Seq::<Seq<char>>::empty());
    }
    result
}

/// Walks a directory's entries and collects every matching file path, in
/// listing order, stopping below [`MAX_DEPTH`] levels.
fn find_files_recursive(
    entries: &Vec<FileTree>,
    endings: &Vec<String>,
    dir_path: &str,
    depth: usize,
) -> (r: Vec<String>)
    requires
        depth <= 7,
    ensures
        r.deep_view() == dir_files(entries@, endings.deep_view(), dir_path@, depth as nat, 0),
    decreases 7 - depth, 0nat, 0nat,
{
    let mut result: Vec<String> = Vec::new();
    if depth > MAX_DEPTH {
        proof {
            assert(result.deep_view() =~= dir_files(
                entries@,
                endings.deep_view(),
                dir_path@,
                depth as nat,
                0,
            ));
        }
        return result;
    }
    let n = entries.len();
    let ghost evs = endings.deep_view();
    let mut k: usize = 0;
    while k < n
        invariant
            k <= n,
            n == entries@.len(),
            depth <= 6,
            evs == endings.deep_view(),
            dir_files(entries@, evs, dir_path@, depth as nat, 0) == result.deep_view()
                + dir_files(entries@, evs, dir_path@, depth as nat, k as int),
        decreases 7 - depth, n - k, 1nat,
    {
        let ghost res_before = result.deep_view();
        let found: Vec<String> = match &entries[k] {
            FileTree::File { name } => {
                let path = join_path(dir_path, name.as_str());
                file_matches(name.as_str(), path.as_str(), endings)
            },
            FileTree::Dir { name, entries: sub } => {
                let child_path = join_path(dir_path, name.as_str());
                find_files_recursive(sub, endings, child_path.as_str(), depth + 1)
            },
        };
        let ghost found_dv = found.deep_view();
        let mut f: usize = 0;
        let fn_len = found.len();
        while f < fn_len
            invariant
                f <= fn_len,
                fn_len == found@.len(),
                found_dv == found.deep_view(),
                result.deep_view() == res_before + found_dv.take(f as int),
            decreases fn_len - f,
        {
            let ghost mid = result.deep_view();
            result.push(found[f].clone());
            proof {
                let dv = result.deep_view();
                assert forall|w: int| 0 <= w < mid.len() implies dv[w] == mid[w] by {
                    assert(dv[w] == result@[w]@);
                }
                assert(dv[mid.len() as int] == result@[mid.len() as int]@);
                assert(found_dv[f as int] == found@[f as int]@);
                assert(dv =~= res_before + found_dv.take(f + 1));
            }
            f = f + 1;
        }
        proof {
            assert(found_dv.take(fn_len as int) =~= found_dv);
            assert(dir_files(entries@, evs, dir_path@, depth as nat, k as int) == found_dv
                + dir_files(entries@, evs, dir_path@, depth as nat, k + 1));
            assert(dir_files(entries@, evs, dir_path@, depth as nat, 0) =~= result.deep_view()
                + dir_files(entries@, evs, dir_path@, depth as nat, k + 1));
        }
        k = k + 1;
    }
    proof {
        assert(dir_files(entries@, evs, dir_path@, depth as nat, n as int)
            =~= Seq::<Seq<char>>::empty());
        assert(result.deep_view() =~= result.deep_view() + Seq::<Seq<char>>::empty());
    }
    result
}

/// The matching file paths of a scanned directory: every file under it, at
/// most [`MAX_DEPTH`] levels deep, whose name ends with one of the given
/// endings — once per matching ending, in listing order. A lone file is
/// not a directory and yields nothing.
pub fn find_files_with_ending(dir: &FileTree, endings: Vec<String>) -> (r: Vec<String>)
    ensures
        r.deep_view() == (match *dir {
            FileTree::File { .. } => Seq::<Seq<char>>::empty(),
            FileTree::Dir { name, entries } => dir_files(
                entries@,
                endings.deep_view(),
                name@,
                0,
                0,
            ),
        }),
{
    match dir {
        FileTree::File { .. } => {
            let empty: Vec<String> = Vec::new();
            proof {
                assert(empty.deep_view() =~= Seq::<Seq<char>>::empty());
            }
            empty
        },
        FileTree::Dir { name, entries } => find_files_recursive(entries, &endings, name.as_str(), 0),
    }
}

/// The part of a path after its last separator.
pub open spec fn file_name_of(p: Seq<char>) -> Seq<char>
    decreases p.len(),
{
    if p.len() == 0 {
        p
    } else if p.last() == '/' {
        Seq::<char>::empty()
    } else {
        file_name_of(p.drop_last()).push(p.last())
    }
}

/// The index of the last dot of a file name, or a negative number if it
/// has none.
pub open spec fn last_dot_index(f: Seq<char>) -> int
    decreases f.len(),
{
    if f.len() == 0 {
        -1
    } else if f.last() == '.' {
        f.len() - 1
    } else {
        last_dot_index(f.drop_last())
    }
}

/// The stem of a file name: what stands before its last dot. A name
/// without a dot, or with a dot only at the start, is its own stem.
pub open spec fn stem_of(f: Seq<char>) -> Seq<char> {
    let k = last_dot_index(f);
    if k >= 1 {
        f.take(k)
    } else {
        f
    }
}

/// The extension of a file name: what stands after its last dot. A name
/// without a dot, or with a dot only at the start, has none.
pub open spec fn ext_of(f: Seq<char>) -> Seq<char> {
    let k = last_dot_index(f);
    if k >= 1 {
        f.skip(k + 1)
    } else {
        Seq::<char>::empty()
    }
}

/// The character code with an upper-case ASCII letter folded to lower
/// case.
pub open spec fn lower_code(u: int) -> int {
    if 65 <= u <= 90 {
        u + 32
    } else {
        u
    }
}

/// Whether a text equals a target after ASCII case folding.
pub open spec fn eq_folded(s: Seq<char>, target: Seq<char>) -> bool {
    s.len() == target.len() && (forall|i: int|
        0 <= i < s.len() ==> lower_code(#[trigger] s[i] as u32 as int) == (target[i] as u32 as int))
}

/// The source file kind an extension denotes, compared without regard to
/// ASCII letter case: `song` files are songs, the common picture
/// extensions are images, everything else is not a source file.
pub open spec fn classify_extension(ext: Seq<char>) -> Option<SourceFileType> {
    if eq_folded(ext, "song"@) {
        Some(SourceFileType::Song)
    } else if eq_folded(ext, "png"@) {
        Some(SourceFileType::Image)
    } else if eq_folded(ext, "jpg"@) {
        Some(SourceFileType::Image)
    } else if eq_folded(ext, "jpeg"@) {
        Some(SourceFileType::Image)
    } else {
        None
    }
}

/// The source file a path yields, if its extension denotes one: named by
/// the file name's stem, under the full path, with the kind of its
/// extension.
pub open spec fn source_file_for_path(p: Seq<char>) -> Option<SourceFileView> {
    let f = file_name_of(p);
    match classify_extension(ext_of(f)) {
        Some(t) => Some(SourceFileView { name: stem_of(f), path: p, file_type: t }),
        None => None,
    }
}

/// The source files of a path listing (from index `k` on), in order.
pub open spec fn source_files_from_paths(paths: Seq<Seq<char>>, k: int) -> Seq<SourceFileView>
    decreases paths.len() - k,
{
    if k < 0 || k >= paths.len() {
        Seq::<SourceFileView>::empty()
    } else {
        (match source_file_for_path(paths[k]) {
            Some(v) => seq![v],
            None => Seq::<SourceFileView>::empty(),
        }) + source_files_from_paths(paths, k + 1)
    }
}

/// The matching file paths of a scanned directory, with the endings the
/// program imports: `song`, `jpg` and `png`.
pub open spec fn found_source_paths(dir: FileTree) -> Seq<Seq<char>> {
    match dir {
        FileTree::File { .. } => Seq::<Seq<char>>::empty(),
        FileTree::Dir { name, entries } => dir_files(
            entries@,
            seq!["song"@, "jpg"@, "png"@],
            name@,
            0,
            0,
        ),
    }
}

/// Whether a text equals a target after ASCII case folding.
fn eq_folded_exec(s: &str, target: &str) -> (r: bool)
    ensures
        r == eq_folded(s@, target@),
{
    let s_len = s.unicode_len();
    let t_len = target.unicode_len();
    if s_len != t_len {
        return false;
    }
    let mut i: usize = 0;
    while i < s_len
        invariant
            i <= s_len,
            s_len == s@.len(),
            s_len == target@.len(),
            forall|j: int|
                0 <= j < i ==> lower_code(#[trigger] s@[j] as u32 as int) == (target@[j] as u32
                    as int),
        decreases s_len - i,
    {
        let cu = s.get_char(i) as u32;
        let tu = target.get_char(i) as u32;
        let folded: u32 = if 65 <= cu && cu <= 90 {
            cu + 32
        } else {
            cu
        };
        if folded != tu {
            return false;
        }
        i = i + 1;
    }
    true
}

/// The source file a path yields, if any.
fn source_file_of_path(p: &str) -> (r: Option<SourceFile>)
    ensures
        (match source_file_for_path(p@) {
            Some(v) => r matches Some(sf) && sf@ == v,
            None => r is None,
        }),
{
    let p_len = p.unicode_len();
    let mut j: usize = p_len;
    proof {
        assert(p@.take(p_len as int) =~= p@);
        assert(p@.skip(p_len as int) =~= Seq::<char>::empty());
        assert(file_name_of(p@) =~= file_name_of(p@.take(j as int)) + p@.skip(j as int));
    }
    while j > 0 && p.get_char(j - 1) != '/'
        invariant
            j <= p_len,
            p_len == p@.len(),
            file_name_of(p@) == file_name_of(p@.take(j as int)) + p@.skip(j as int),
        decreases j,
    {
        proof {
            let t = p@.take(j as int);
            assert(t.last() == p@[j - 1]);
            assert(t.drop_last() =~= p@.take(j - 1));
            assert(file_name_of(t) == file_name_of(p@.take(j - 1)).push(p@[j - 1]));
            assert(file_name_of(p@.take(j - 1)).push(p@[j - 1]) + p@.skip(j as int)
                =~= file_name_of(p@.take(j - 1)) + p@.skip(j - 1));
        }
        j = j - 1;
    }
    proof {
        if j > 0 {
            assert(p@.take(j as int).last() == p@[j - 1]);
            assert(file_name_of(p@.take(j as int)) =~= Seq::<char>::empty());
        } else {
            assert(p@.take(0) =~= Seq::<char>::empty());
        }
        assert(file_name_of(p@) =~= p@.skip(j as int));
    }
    let fname = p.substring_char(j, p_len);
    let ghost f = file_name_of(p@);
    proof {
        assert(fname@ == f);
    }
    let f_len = p_len - j;
    let mut d: usize = f_len;
    proof {
        assert(fname@.take(f_len as int) =~= fname@);
    }
    while d > 0 && fname.get_char(d - 1) != '.'
        invariant
            d <= f_len,
            f_len == fname@.len(),
            fname@ == f,
            last_dot_index(f) == last_dot_index(f.take(d as int)),
        decreases d,
    {
        proof {
            let t = f.take(d as int);
            assert(t.last() == f[d - 1]);
            assert(t.drop_last() =~= f.take(d - 1));
        }
        d = d - 1;
    }
    proof {
        if d > 0 {
            assert(f.take(d as int).last() == f[d - 1]);
            assert(last_dot_index(f) == d - 1);
        } else {
            assert(f.take(0) =~= Seq::<char>::empty());
            assert(last_dot_index(f) == -1);
        }
    }
    let ext: &str = if d >= 2 {
        let e = fname.substring_char(d, f_len);
        proof {
            assert(e@ == ext_of(f));
        }
        e
    } else {
        proof {
            reveal_strlit("");
            assert(""@ =~= Seq::<char>::empty());
            assert(ext_of(f) =~= ""@);
        }
        ""
    };
    let file_type: Option<SourceFileType> = if eq_folded_exec(ext, "song") {
        Some(SourceFileType::Song)
    } else if eq_folded_exec(ext, "png") {
        Some(SourceFileType::Image)
    } else if eq_folded_exec(ext, "jpg") {
        Some(SourceFileType::Image)
    } else {
        if eq_folded_exec(ext, "jpeg") {
            Some(SourceFileType::Image)
        } else {
            None
        }
    };
    match file_type {
        Some(t) => {
            let stem: &str = if d >= 2 {
                let st = fname.substring_char(0, d - 1);
                proof {
                    assert(st@ == stem_of(f));
                }
                st
            } else {
                proof {
                    assert(stem_of(f) == f);
                }
                fname
            };
            Some(
                SourceFile {
                    name: String::from_str(stem),
                    path: String::from_str(p),
                    file_type: t,
                },
            )
        },
        None => None,
    }
}

/// Every source file in a scanned directory which the program can import:
/// the files found by [`find_files_with_ending`] with the import endings,
/// classified by their extension, in listing order.
pub fn get_source_files(start_dir: &FileTree) -> (r: Vec<SourceFile>)
    ensures
        r.deep_view() == source_files_from_paths(found_source_paths(*start_dir), 0),
{
    let mut endings: Vec<String> = Vec::new();
    endings.push(String::from_str("song"));
    endings.push(String::from_str("jpg"));
    endings.push(String::from_str("png"));
    proof {
        assert(endings.deep_view()[0] == endings@[0]@);
        assert(endings.deep_view()[1] == endings@[1]@);
        assert(endings.deep_view()[2] == endings@[2]@);
        assert(endings.deep_view() =~= seq!["song"@, "jpg"@, "png"@]);
    }
    let paths = find_files_with_ending(start_dir, endings);
    let ghost pvs = paths.deep_view();
    proof {
        assert(pvs == found_source_paths(*start_dir));
    }
    let mut source_files: Vec<SourceFile> = Vec::new();
    let n = paths.len();
    let mut k: usize = 0;
    while k < n
        invariant
            k <= n,
            n == paths@.len(),
            pvs == paths.deep_view(),
            source_files_from_paths(pvs, 0) == source_files.deep_view()
                + source_files_from_paths(pvs, k as int),
        decreases n - k,
    {
        let ghost before = source_files.deep_view();
        proof {
            assert(paths@[k as int]@ == pvs[k as int]);
        }
        match source_file_of_path(paths[k].as_str()) {
            Some(sf) => {
                source_files.push(sf);
                proof {
                    let dv = source_files.deep_view();
                    assert forall|w: int| 0 <= w < before.len() implies dv[w] == before[w] by {
                        assert(dv[w] == source_files@[w]@);
                    }
                    assert(dv[before.len() as int] == source_files@[before.len() as int]@);
                    assert(dv =~= before.push(source_file_for_path(pvs[k as int]).unwrap()));
                    assert(before + seq![source_file_for_path(pvs[k as int]).unwrap()] =~= dv);
                }
            },
            None => {
                proof {
                    assert(Seq::<SourceFileView>::empty() + source_files_from_paths(pvs, k + 1)
                        =~= source_files_from_paths(pvs, k + 1));
                }
            },
        }
        proof {
            assert(source_files_from_paths(pvs, 0) =~= source_files.deep_view()
                + source_files_from_paths(pvs, k + 1));
        }
        k = k + 1;
    }
    proof {
        assert(source_files_from_paths(pvs, n as int) =~= Seq::<SourceFileView>::empty());
        assert(source_files.deep_view() =~= source_files.deep_view()
            + Seq::<SourceFileView>::empty());
    }
    source_files
}

} // verus!
