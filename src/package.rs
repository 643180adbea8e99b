//! The portable package format: the manifest that describes a sound set,
//! its validation, the safety rule for paths inside the archive, and the
//! names under which a package is written.
use vstd::prelude::*;
use crate::text::{chars_of, is_blank, is_blank_text, string_from};

verus! {

/// The only manifest format version this store reads and writes.
pub const FORMAT_VERSION: i32 = 1;

/// The document at the root of a package that describes its sound set.
#[derive(Debug)]
pub struct ExportManifest {
    pub format_version: i32,
    pub soundset: ExportSoundSet,
    pub channels: Vec<ExportChannel>,
    pub elements: Vec<ExportElement>,
    pub moods: Vec<ExportMood>,
}

/// The sound set header of a package.
#[derive(Debug)]
pub struct ExportSoundSet {
    pub name: String,
    pub description: String,
}

/// A channel of a package, referenced by its name.
#[derive(Debug)]
pub struct ExportChannel {
    pub name: String,
    pub icon: String,
    /// Bit pattern of the `f64` gain.
    pub volume_bits: u64,
    pub order_index: i64,
}

/// An audio element of a package: its file lies at `archive_path` in the
/// archive.
#[derive(Debug)]
pub struct ExportElement {
    pub file_name: String,
    pub archive_path: String,
    pub channel_name: Option<String>,
    pub channel_type: String,
    /// Bit pattern of the `f64` level in decibels.
    pub volume_db_bits: u64,
}

/// A mood of a package, with its timeline if it has one.
#[derive(Debug)]
pub struct ExportMood {
    pub name: String,
    pub description: String,
    pub timeline: Option<ExportTimeline>,
}

/// A timeline of a package.
#[derive(Debug)]
pub struct ExportTimeline {
    pub is_looping: bool,
    pub tracks: Vec<ExportTrack>,
}

/// A track of a package.
#[derive(Debug)]
pub struct ExportTrack {
    pub name: String,
    pub order_index: i64,
    pub clips: Vec<ExportClip>,
}

/// A clip of a package; its element is named by file name.
#[derive(Debug)]
pub struct ExportClip {
    pub element_file_name: String,
    pub start_time_ms: i64,
    pub duration_ms: i64,
}

/// Why an archive path is unsafe.
#[derive(Debug, Clone, Copy, PartialEq, Eq, Structural)]
pub enum PathFault {
    /// The path is rooted.
    NotRelative,
    /// The path has a `..` segment.
    ParentSegment,
}

/// Why a manifest, or the folder it describes, cannot be packaged or
/// imported. Indexes are positions in `elements`.
#[derive(Debug, Clone, Copy, PartialEq, Eq, Structural)]
pub enum PackageError {
    UnsupportedFormatVersion(i32),
    EmptySoundSetName,
    EmptyArchivePath(usize),
    EmptyFileName(usize),
    UnsafeArchivePath(usize, PathFault),
    MissingSourceFile(usize),
    SourceNotAFile(usize),
}

/// The first element, from index `i` on, with a blank archive path or file
/// name, and which of the two is blank.
pub open spec fn element_fault_from(elements: Seq<ExportElement>, i: int) -> Option<PackageError>
    decreases elements.len() - i,
{
    if i < 0 || i >= elements.len() {
        None
    } else if is_blank_text(elements[i].archive_path@) {
        Some(PackageError::EmptyArchivePath(i as usize))
    } else if is_blank_text(elements[i].file_name@) {
        Some(PackageError::EmptyFileName(i as usize))
    } else {
        element_fault_from(elements, i + 1)
    }
}

/// What is wrong with a manifest, checked in this order: its version, its
/// sound set name, then each element's archive path and file name.
pub open spec fn manifest_fault(m: ExportManifest) -> Option<PackageError> {
    if m.format_version != FORMAT_VERSION {
        Some(PackageError::UnsupportedFormatVersion(m.format_version))
    } else if is_blank_text(m.soundset.name@) {
        Some(PackageError::EmptySoundSetName)
    } else {
        element_fault_from(m.elements@, 0)
    }
}

/// Checks a manifest before it is packaged or imported.
pub fn validate_manifest_for_packaging(manifest: &ExportManifest) -> (r: Result<(), PackageError>)
    ensures
        r is Ok <==> manifest_fault(*manifest) is None,
        r is Err ==> r == Err::<(), PackageError>(manifest_fault(*manifest)->0),
{
    if manifest.format_version != FORMAT_VERSION {
        return Err(PackageError::UnsupportedFormatVersion(manifest.format_version));
    }
    if is_blank(manifest.soundset.name.as_str()) {
        return Err(PackageError::EmptySoundSetName);
    }
    let mut i: usize = 0;
    while i < manifest.elements.len()
        invariant
            i <= manifest.elements.len(),
            manifest.format_version == FORMAT_VERSION,
            !is_blank_text(manifest.soundset.name@),
            element_fault_from(manifest.elements@, 0) == element_fault_from(manifest.elements@, i as int),
        decreases manifest.elements.len() - i,
    {
        let e = &manifest.elements[i];
        if is_blank(e.archive_path.as_str()) {
            return Err(PackageError::EmptyArchivePath(i));
        }
        if is_blank(e.file_name.as_str()) {
            return Err(PackageError::EmptyFileName(i));
        }
        i += 1;
    }
    Ok(())
}

/// Whether `s` has a segment, between separators `/` or the ends, that is
/// exactly `..`.
pub open spec fn has_parent_segment(s: Seq<char>) -> bool {
    exists|i: int|
        0 <= i && i + 2 <= s.len() && #[trigger] s[i] == '.' && s[i + 1] == '.' && (i == 0 || s[i
            - 1] == '/') && (i + 2 == s.len() || s[i + 2] == '/')
}

/// What is unsafe about an archive path, read with `/` as the separator:
/// being rooted, else holding a `..` segment.
pub open spec fn path_fault(s: Seq<char>) -> Option<PathFault> {
    if s.len() > 0 && s[0] == '/' {
        Some(PathFault::NotRelative)
    } else if has_parent_segment(s) {
        Some(PathFault::ParentSegment)
    } else {
        None
    }
}

/// Checks that an archive path is relative and never climbs out of the
/// archive root.
pub fn validate_archive_path(value: &str) -> (r: Result<(), PathFault>)
    ensures
        r is Ok <==> path_fault(value@) is None,
        r is Err ==> r == Err::<(), PathFault>(path_fault(value@)->0),
{
    let s = chars_of(value);
    let n = s.len();
    if n > 0 && s[0] == '/' {
        return Err(PathFault::NotRelative);
    }
    let mut i: usize = 0;
    while i < n && n - i >= 2
        invariant
            i <= n,
            n == s@.len(),
            !(n > 0 && s@[0] == '/'),
            s@ == value@,
            forall|k: int|
                0 <= k < i ==> !(k + 2 <= s@.len() && #[trigger] s@[k] == '.' && s@[k + 1] == '.'
                    && (k == 0 || s@[k - 1] == '/') && (k + 2 == s@.len() || s@[k + 2] == '/')),
        decreases n - i,
    {
        if s[i] == '.' && s[i + 1] == '.' && (i == 0 || s[i - 1] == '/') && (i + 2 == n || s[i
            + 2] == '/') {
            assert(s@[i as int] == '.');
            return Err(PathFault::ParentSegment);
        }
        i += 1;
    }
    Ok(())
}

/// The characters kept in an archive file name.
pub open spec fn is_name_char(c: char) -> bool {
    ('0' <= c && c <= '9') || ('a' <= c && c <= 'z') || ('A' <= c && c <= 'Z') || c == '-' || c
        == '_'
}

/// `name` with every character outside `[A-Za-z0-9_-]` replaced by `-`.
pub open spec fn dashed(name: Seq<char>) -> Seq<char> {
    name.map_values(|c: char| if is_name_char(c) { c } else { '-' })
}

/// `s` without its leading `-` characters.
pub open spec fn trim_leading_dashes(s: Seq<char>) -> Seq<char>
    decreases s.len(),
{
    if s.len() > 0 && s[0] == '-' { trim_leading_dashes(s.drop_first()) } else { s }
}

/// `s` without its trailing `-` characters.
pub open spec fn trim_trailing_dashes(s: Seq<char>) -> Seq<char>
    decreases s.len(),
{
    if s.len() > 0 && s.last() == '-' { trim_trailing_dashes(s.drop_last()) } else { s }
}

/// The name used when a sound set's name leaves nothing after sanitizing.
pub open spec fn fallback_archive_name() -> Seq<char> {
    "soundset-export"@
}

/// The file name stem derived from a sound set name.
pub open spec fn sanitized_name(name: Seq<char>) -> Seq<char> {
    let t = trim_trailing_dashes(trim_leading_dashes(dashed(name)));
    if t.len() == 0 { fallback_archive_name() } else { t }
}

proof fn lemma_trim_leading(s: Seq<char>, lo: int)
    requires
        0 <= lo <= s.len(),
        forall|k: int| 0 <= k < lo ==> s[k] == '-',
    ensures
        trim_leading_dashes(s) == trim_leading_dashes(s.subrange(lo, s.len() as int)),
    decreases lo,
{
    if lo > 0 {
        assert(s.drop_first().subrange(lo - 1, s.drop_first().len() as int) =~= s.subrange(lo, s.len() as int));
        lemma_trim_leading(s.drop_first(), lo - 1);
    } else {
        assert(s.subrange(0, s.len() as int) =~= s);
    }
}

proof fn lemma_trim_trailing(s: Seq<char>, hi: int)
    requires
        0 <= hi <= s.len(),
        forall|k: int| hi <= k < s.len() ==> s[k] == '-',
    ensures
        trim_trailing_dashes(s) == trim_trailing_dashes(s.subrange(0, hi)),
    decreases s.len() - hi,
{
    if hi < s.len() {
        assert(s.drop_last().subrange(0, hi) =~= s.subrange(0, hi));
        lemma_trim_trailing(s.drop_last(), hi);
    } else {
        assert(s.subrange(0, hi) =~= s);
    }
}

fn is_name_char_exec(c: char) -> (r: bool)
    ensures
        r == is_name_char(c),
{
    ('0' <= c && c <= '9') || ('a' <= c && c <= 'z') || ('A' <= c && c <= 'Z') || c == '-' || c
        == '_'
}

/// The file name stem of a package written without an explicit output path:
/// the sound set name restricted to `[A-Za-z0-9_-]`, every other character
/// turned into `-`, leading and trailing `-` removed, and
/// `"soundset-export"` when nothing is left.
pub fn sanitize_archive_name(name: &str) -> (r: String)
    ensures
        r@ == sanitized_name(name@),
{
    let cs = chars_of(name);
    let mut mapped: Vec<char> = Vec::new();
    let mut i: usize = 0;
    while i < cs.len()
        invariant
            i <= cs.len(),
            cs@ == name@,
            mapped@ == dashed(cs@.take(i as int)),
        decreases cs.len() - i,
    {
        let c = cs[i];
        if is_name_char_exec(c) {
            mapped.push(c);
        } else {
            mapped.push('-');
        }
        assert(dashed(cs@.take(i + 1)) =~= dashed(cs@.take(i as int)).push(
            if is_name_char(c) { c } else { '-' },
        ));
        i += 1;
    }
    assert(cs@.take(cs.len() as int) =~= cs@);
    let n = mapped.len();
    let mut lo: usize = 0;
    while lo < n && mapped[lo] == '-'
        invariant
            lo <= n,
            n == mapped@.len(),
            forall|k: int| 0 <= k < lo ==> mapped@[k] == '-',
        decreases n - lo,
    {
        lo += 1;
    }
    proof {
        lemma_trim_leading(mapped@, lo as int);
    }
    let ghost rest = mapped@.subrange(lo as int, n as int);
    assert(rest.len() == 0 || rest[0] != '-');
    assert(trim_leading_dashes(rest) == rest);
    let mut hi: usize = n;
    while hi > lo && mapped[hi - 1] == '-'
        invariant
            lo <= hi <= n,
            n == mapped@.len(),
            forall|k: int| hi <= k < n ==> mapped@[k] == '-',
        decreases hi,
    {
        hi -= 1;
    }
    proof {
        lemma_trim_trailing(rest, (hi - lo) as int);
        assert(rest.subrange(0, (hi - lo) as int) =~= mapped@.subrange(lo as int, hi as int));
    }
    if hi == lo {
        return String::from_str("soundset-export");
    }
    let mut kept: Vec<char> = Vec::new();
    let mut j: usize = lo;
    while j < hi
        invariant
            lo <= j <= hi,
            hi <= n,
            n == mapped@.len(),
            kept@ == mapped@.subrange(lo as int, j as int),
        decreases hi - j,
    {
        kept.push(mapped[j]);
        assert(mapped@.subrange(lo as int, j + 1) =~= mapped@.subrange(lo as int, j as int).push(
            mapped@[j as int],
        ));
        j += 1;
    }
    string_from(&kept)
}

/// Lexicographic order of texts by character code, which is also the byte
/// order of their UTF-8 encodings (the order of `str`'s `Ord`).
pub open spec fn text_before(a: Seq<char>, b: Seq<char>) -> bool
    decreases a.len(),
{
    if a.len() == 0 {
        b.len() > 0
    } else if b.len() == 0 {
        false
    } else if a[0] != b[0] {
        a[0] < b[0]
    } else {
        text_before(a.drop_first(), b.drop_first())
    }
}

proof fn lemma_text_before_trans(a: Seq<char>, b: Seq<char>, c: Seq<char>)
    requires
        text_before(a, b),
        text_before(b, c),
    ensures
        text_before(a, c),
    decreases a.len(),
{
    if a.len() > 0 && b.len() > 0 && c.len() > 0 && a[0] == b[0] && b[0] == c[0] {
        lemma_text_before_trans(a.drop_first(), b.drop_first(), c.drop_first());
    }
}

proof fn lemma_text_before_total(a: Seq<char>, b: Seq<char>)
    ensures
        a == b || text_before(a, b) || text_before(b, a),
        !(text_before(a, b) && text_before(b, a)),
        !text_before(a, a),
    decreases a.len(),
{
    if a.len() > 0 && b.len() > 0 {
        lemma_text_before_total(a.drop_first(), b.drop_first());
        if a[0] == b[0] && a.drop_first() == b.drop_first() {
            assert(a =~= seq![a[0]] + a.drop_first());
            assert(b =~= seq![b[0]] + b.drop_first());
        }
        if a[0] != b[0] {
            assert(a[0] < b[0] || b[0] < a[0]);
        }
    } else if a.len() == 0 && b.len() == 0 {
        assert(a =~= b);
    }
    if a.len() > 0 {
        lemma_text_before_total(a.drop_first(), a.drop_first());
    }
}

fn text_before_from(a: &Vec<char>, b: &Vec<char>, k: usize) -> (r: bool)
    requires
        k <= a@.len(),
        k <= b@.len(),
    ensures
        r == text_before(a@.skip(k as int), b@.skip(k as int)),
    decreases a@.len() - k,
{
    if k == a.len() {
        k < b.len()
    } else if k == b.len() {
        false
    } else if a[k] != b[k] {
        a[k] < b[k]
    } else {
        assert(a@.skip(k as int).drop_first() =~= a@.skip(k + 1));
        assert(b@.skip(k as int).drop_first() =~= b@.skip(k + 1));
        text_before_from(a, b, k + 1)
    }
}

/// Whether entry `i` of a package comes before entry `j`: by archive path,
/// and by position in the manifest between equal paths.
pub open spec fn entry_before(paths: Seq<Seq<char>>, i: int, j: int) -> bool {
    text_before(paths[i], paths[j]) || (paths[i] == paths[j] && i < j)
}

/// `order` lists each of the `n` entries once, sorted by `entry_before`.
pub open spec fn is_entry_order(paths: Seq<Seq<char>>, order: Seq<usize>) -> bool {
    &&& order.len() == paths.len()
    &&& order.no_duplicates()
    &&& forall|k: int| 0 <= k < order.len() ==> #[trigger] order[k] < paths.len()
    &&& forall|a: int, b: int|
        0 <= a < b < order.len() ==> entry_before(paths, #[trigger] order[a] as int, #[trigger] order[b] as int)
}

/// The archive paths of `elements`.
pub open spec fn archive_paths(elements: Seq<ExportElement>) -> Seq<Seq<char>> {
    elements.map_values(|e: ExportElement| e.archive_path@)
}

/// The positions of `elements` in the order their files are written to an
/// archive: sorted by archive path, equal paths in manifest order.
pub fn archive_order(elements: &Vec<ExportElement>) -> (order: Vec<usize>)
    ensures
        is_entry_order(archive_paths(elements@), order@),
{
    let ghost paths = archive_paths(elements@);
    let mut keys: Vec<Vec<char>> = Vec::new();
    let mut i: usize = 0;
    while i < elements.len()
        invariant
            i <= elements.len(),
            paths == archive_paths(elements@),
            keys@.len() == i,
            forall|k: int| 0 <= k < i ==> (#[trigger] keys@[k])@ == paths[k],
        decreases elements.len() - i,
    {
        keys.push(chars_of(elements[i].archive_path.as_str()));
        i += 1;
    }
    let mut order: Vec<usize> = Vec::new();
    let mut i: usize = 0;
    while i < keys.len()
        invariant
            i <= keys.len(),
            keys@.len() == paths.len(),
            forall|k: int| 0 <= k < keys@.len() ==> (#[trigger] keys@[k])@ == paths[k],
            order@.len() == i,
            order@.no_duplicates(),
            forall|k: int| 0 <= k < order@.len() ==> #[trigger] order@[k] < i,
            forall|a: int, b: int|
                0 <= a < b < order@.len() ==> entry_before(paths, #[trigger] order@[a] as int, #[trigger] order@[b] as int),
        decreases keys.len() - i,
    {
        let mut p: usize = 0;
        while p < order.len() && !text_before_from(&keys[i], &keys[order[p]], 0)
            invariant
                i < keys.len(),
                p <= order@.len(),
                keys@.len() == paths.len(),
                forall|k: int| 0 <= k < keys@.len() ==> (#[trigger] keys@[k])@ == paths[k],
                forall|k: int| 0 <= k < order@.len() ==> #[trigger] order@[k] < i,
                forall|a: int| 0 <= a < p ==> !text_before(paths[i as int], paths[#[trigger] order@[a] as int]),
            decreases order@.len() - p,
        {
            assert(keys@[i as int]@.skip(0) =~= keys@[i as int]@);
            assert(keys@[order@[p as int] as int]@.skip(0) =~= keys@[order@[p as int] as int]@);
            p += 1;
        }
        if p < order.len() {
            assert(keys@[i as int]@.skip(0) =~= keys@[i as int]@);
            assert(keys@[order@[p as int] as int]@.skip(0) =~= keys@[order@[p as int] as int]@);
            assert(text_before(paths[i as int], paths[order@[p as int] as int]));
        }
        let ghost old_order = order@;
        order.insert(p, i);
        proof {
            assert(order@ =~= old_order.insert(p as int, i));
            assert forall|a: int, b: int| 0 <= a < b < order@.len() implies entry_before(
                paths,
                #[trigger] order@[a] as int,
                #[trigger] order@[b] as int,
            ) by {
                let pi = paths[i as int];
                if a == p {
                    let ob = order@[b] as int;
                    assert(ob == old_order[b - 1] as int);
                    let op = old_order[p as int] as int;
                    assert(text_before(pi, paths[op]));
                    if b - 1 > p {
                        assert(entry_before(paths, op, ob));
                        if text_before(paths[op], paths[ob]) {
                            lemma_text_before_trans(pi, paths[op], paths[ob]);
                        }
                    }
                } else if b == p {
                    let oa = order@[a] as int;
                    assert(oa == old_order[a] as int);
                    assert(!text_before(pi, paths[oa]));
                    lemma_text_before_total(pi, paths[oa]);
                } else if a < p && b > p {
                    assert(order@[a] == old_order[a]);
                    assert(order@[b] == old_order[b - 1]);
                } else if b < p {
                    assert(order@[a] == old_order[a]);
                    assert(order@[b] == old_order[b]);
                } else {
                    assert(order@[a] == old_order[a - 1]);
                    assert(order@[b] == old_order[b - 1]);
                }
            }
            assert forall|k: int| 0 <= k < order@.len() implies #[trigger] order@[k] < i + 1 by {
                if k < p {
                    assert(order@[k] == old_order[k]);
                } else if k > p {
                    assert(order@[k] == old_order[k - 1]);
                }
            }
            assert forall|x: int, y: int| 0 <= x < order@.len() && 0 <= y < order@.len() && x != y implies order@[x] != order@[y] by {
                if x != p && y != p {
                    let x0 = if x < p { x } else { x - 1 };
                    let y0 = if y < p { y } else { y - 1 };
                    assert(order@[x] == old_order[x0]);
                    assert(order@[y] == old_order[y0]);
                } else if x == p {
                    let y0 = if y < p { y } else { y - 1 };
                    assert(order@[y] == old_order[y0]);
                } else {
                    let x0 = if x < p { x } else { x - 1 };
                    assert(order@[x] == old_order[x0]);
                }
            }
        }
        i += 1;
    }
    order
}

/// What the file system shows at an element's archive path under the
/// source folder.
#[derive(Debug, Clone, Copy, PartialEq, Eq, Structural)]
pub enum SourceStatus {
    File,
    NotAFile,
    Missing,
}

/// The first path of `paths`, from index `i` on, that is unsafe.
pub open spec fn archive_path_fault_from(paths: Seq<Seq<char>>, i: int) -> Option<PackageError>
    decreases paths.len() - i,
{
    if i < 0 || i >= paths.len() {
        None
    } else if path_fault(paths[i]) is Some {
        Some(PackageError::UnsafeArchivePath(i as usize, path_fault(paths[i])->0))
    } else {
        archive_path_fault_from(paths, i + 1)
    }
}

/// The first element, from index `i` on, whose archive path is unsafe.
pub open spec fn path_fault_from(elements: Seq<ExportElement>, i: int) -> Option<PackageError> {
    archive_path_fault_from(archive_paths(elements), i)
}

/// The first element, from index `i` on, whose archive path is unsafe or
/// whose source file is not a regular file.
pub open spec fn source_fault_from(
    elements: Seq<ExportElement>,
    statuses: Seq<SourceStatus>,
    i: int,
) -> Option<PackageError>
    decreases elements.len() - i,
{
    if i < 0 || i >= elements.len() {
        None
    } else if path_fault(elements[i].archive_path@) is Some {
        Some(PackageError::UnsafeArchivePath(i as usize, path_fault(elements[i].archive_path@)->0))
    } else if statuses[i] == SourceStatus::Missing {
        Some(PackageError::MissingSourceFile(i as usize))
    } else if statuses[i] == SourceStatus::NotAFile {
        Some(PackageError::SourceNotAFile(i as usize))
    } else {
        source_fault_from(elements, statuses, i + 1)
    }
}

/// Decides how a source folder is packaged, given its manifest and what
/// lies at each element's archive path (`statuses`, one per element): the
/// manifest must be valid, each archive path safe and each source a regular
/// file; the files are then written in `archive_order`. Nothing is written
/// when this fails.
pub fn plan_package(manifest: &ExportManifest, statuses: &Vec<SourceStatus>) -> (r: Result<Vec<usize>, PackageError>)
    requires
        statuses@.len() == manifest.elements@.len(),
    ensures
        manifest_fault(*manifest) is Some ==> r == Err::<Vec<usize>, PackageError>(manifest_fault(*manifest)->0),
        manifest_fault(*manifest) is None && source_fault_from(manifest.elements@, statuses@, 0) is Some
            ==> r == Err::<Vec<usize>, PackageError>(source_fault_from(manifest.elements@, statuses@, 0)->0),
        manifest_fault(*manifest) is None && source_fault_from(manifest.elements@, statuses@, 0) is None
            ==> r is Ok && is_entry_order(archive_paths(manifest.elements@), r->Ok_0@),
{
    match validate_manifest_for_packaging(manifest) {
        Err(e) => {
            return Err(e);
        },
        Ok(()) => {},
    }
    let mut i: usize = 0;
    while i < manifest.elements.len()
        invariant
            i <= manifest.elements.len(),
            statuses@.len() == manifest.elements@.len(),
            manifest_fault(*manifest) is None,
            source_fault_from(manifest.elements@, statuses@, 0) == source_fault_from(manifest.elements@, statuses@, i as int),
        decreases manifest.elements.len() - i,
    {
        match validate_archive_path(manifest.elements[i].archive_path.as_str()) {
            Err(f) => {
                return Err(PackageError::UnsafeArchivePath(i, f));
            },
            Ok(()) => {},
        }
        match statuses[i] {
            SourceStatus::Missing => {
                return Err(PackageError::MissingSourceFile(i));
            },
            SourceStatus::NotAFile => {
                return Err(PackageError::SourceNotAFile(i));
            },
            SourceStatus::File => {},
        }
        i += 1;
    }
    Ok(archive_order(&manifest.elements))
}

/// Checks that every archive path of `elements` is safe.
pub fn validate_archive_paths(elements: &Vec<ExportElement>) -> (r: Result<(), PackageError>)
    ensures
        r is Ok <==> path_fault_from(elements@, 0) is None,
        r is Err ==> r == Err::<(), PackageError>(path_fault_from(elements@, 0)->0),
{
    let mut i: usize = 0;
    while i < elements.len()
        invariant
            i <= elements.len(),
            path_fault_from(elements@, 0) == path_fault_from(elements@, i as int),
        decreases elements.len() - i,
    {
        match validate_archive_path(elements[i].archive_path.as_str()) {
            Err(f) => {
                return Err(PackageError::UnsafeArchivePath(i, f));
            },
            Ok(()) => {},
        }
        i += 1;
    }
    Ok(())
}

/// The file name of a package written without an explicit output path.
pub fn default_package_file_name(sound_set_name: &str) -> (r: String)
    ensures
        r@ == sanitized_name(sound_set_name@) + ".zip"@,
{
    let mut r = sanitize_archive_name(sound_set_name);
    r.append(".zip");
    r
}

} // verus!
