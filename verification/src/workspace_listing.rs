//! Workspace file browsing decisions: which root a request reads from,
//! how a directory listing is ordered, and how a file is answered.
use vstd::prelude::*;
use crate::errors::{forbidden, not_found, plain_error, HttpError, STATUS_FORBIDDEN, STATUS_NOT_FOUND};
use crate::files::text_mime;
use crate::state::{registry_find, WorkspaceEntry};
use crate::text::{chars_eq, chars_of, has_prefix_str, push_str};
use crate::work_item_order::compare_chars;

verus! {

// ------------------------------------------------------------ the root

/// Where the files of a workspace request are read from.
#[derive(Debug, Clone, PartialEq, Eq)]
pub enum RootSource {
    /// The workspace anchor from the registry.
    Anchor(String),
    /// The execution root registered under this id, looked up server-side.
    ExecutionRoot(String),
}

/// The registry record of an execution root.
#[derive(Debug, Clone)]
pub struct ExecutionRootRecord {
    pub workspace_id: String,
    pub filesystem_path: String,
    pub removed: bool,
}

/// How a root request ends: the root's path, a removed execution root
/// (`410 Gone`, answered with `{"error": .., "execution_root_id": ..}`),
/// or an error.
#[derive(Debug, Clone)]
pub enum RootResolution {
    Root(String),
    Gone { execution_root_id: String },
    Failed(HttpError),
}

/// The root a request names: the workspace anchor unless an execution
/// root id other than a `canonical_root:` one is given. The id itself is
/// an opaque token; no path is taken from it.
pub fn workspace_root_source(
    registry: &Vec<WorkspaceEntry>,
    workspace_id: &str,
    root_id: Option<&str>,
) -> (r: Result<RootSource, HttpError>)
    ensures
        match registry_find(registry@, workspace_id@) {
            None => r matches Err(e) && plain_error(
                e,
                STATUS_NOT_FOUND,
                "workspace '"@ + workspace_id@ + "' not found"@,
            ),
            Some(entry) => match root_id {
                Some(id) => if "canonical_root:"@.is_prefix_of(id@) {
                    r matches Ok(RootSource::Anchor(a)) && a@ == entry.workspace_anchor@
                } else {
                    r matches Ok(RootSource::ExecutionRoot(x)) && x@ == id@
                },
                None => r matches Ok(RootSource::Anchor(a)) && a@ == entry.workspace_anchor@,
            },
        },
{
    let idv = chars_of(workspace_id);
    let mut i: usize = 0;
    assert(registry@.skip(0) =~= registry@);
    while i < registry.len()
        invariant
            i <= registry@.len(),
            idv@ == workspace_id@,
            registry_find(registry@, workspace_id@) == registry_find(registry@.skip(i as int), workspace_id@),
        decreases registry.len() - i,
    {
        let e = chars_of(registry[i].workspace_id.as_str());
        assert(registry@.skip(i as int).drop_first() =~= registry@.skip(i + 1));
        if chars_eq(&e, &idv) {
            let anchor = registry[i].workspace_anchor.clone();
            return match root_id {
                Some(id) => {
                    let v = chars_of(id);
                    if has_prefix_str(&v, "canonical_root:") {
                        Ok(RootSource::Anchor(anchor))
                    } else {
                        Ok(RootSource::ExecutionRoot(String::from_str(id)))
                    }
                },
                None => Ok(RootSource::Anchor(anchor)),
            };
        }
        i = i + 1;
    }
    let mut m = String::from_str("workspace '");
    push_str(&mut m, workspace_id);
    push_str(&mut m, "' not found");
    Err(not_found(m))
}

/// How an execution root lookup ends for `workspace_id`: its path when it
/// belongs to the workspace and is not removed.
pub fn resolve_execution_root(
    workspace_id: &str,
    execution_root_id: &str,
    record: Option<&ExecutionRootRecord>,
) -> (r: RootResolution)
    ensures
        match record {
            None => r matches RootResolution::Failed(e) && plain_error(
                e,
                STATUS_NOT_FOUND,
                "execution_root_id not found in registry: '"@ + execution_root_id@ + "'"@,
            ),
            Some(rec) => if rec.removed {
                r matches RootResolution::Gone { execution_root_id: x } && x@ == execution_root_id@
            } else if rec.workspace_id@ != workspace_id@ {
                r matches RootResolution::Failed(e) && plain_error(
                    e,
                    STATUS_FORBIDDEN,
                    "execution_root_id does not belong to workspace '"@ + workspace_id@ + "'"@,
                )
            } else {
                r matches RootResolution::Root(p) && p@ == rec.filesystem_path@
            },
        },
{
    match record {
        None => {
            let mut m = String::from_str("execution_root_id not found in registry: '");
            push_str(&mut m, execution_root_id);
            push_str(&mut m, "'");
            RootResolution::Failed(not_found(m))
        },
        Some(rec) => {
            if rec.removed {
                return RootResolution::Gone { execution_root_id: String::from_str(execution_root_id) };
            }
            let a = chars_of(rec.workspace_id.as_str());
            let b = chars_of(workspace_id);
            if !chars_eq(&a, &b) {
                let mut m = String::from_str("execution_root_id does not belong to workspace '");
                push_str(&mut m, workspace_id);
                push_str(&mut m, "'");
                return RootResolution::Failed(forbidden(m));
            }
            RootResolution::Root(rec.filesystem_path.clone())
        },
    }
}

// -------------------------------------------------------- how to answer

/// How a request for an existing file is answered.
#[derive(Debug, Clone, Copy, PartialEq, Eq, Structural)]
pub enum FileResponseMode {
    /// Metadata only, as JSON.
    Metadata,
    /// The raw bytes, with ranges and validators.
    Raw,
    /// A bounded text preview, as JSON.
    TextPreview,
}

/// Whether an `Accept` value mentions `application/json`.
pub open spec fn accept_mentions_json(accept: Option<Seq<char>>) -> bool {
    accept matches Some(a) && crate::errors::contains_seq(a, "application/json"@)
}

/// Metadata when asked for; raw bytes for binary files, downloads and
/// direct links (no JSON negotiation); a JSON text preview otherwise.
pub open spec fn response_mode(mime: Seq<char>, want_meta: bool, want_download: bool, accept: Option<Seq<char>>) -> FileResponseMode {
    if want_meta {
        FileResponseMode::Metadata
    } else if !text_mime(mime) || want_download || !accept_mentions_json(accept) {
        FileResponseMode::Raw
    } else {
        FileResponseMode::TextPreview
    }
}

pub open spec fn opt_str(o: Option<&str>) -> Option<Seq<char>> {
    match o {
        Some(s) => Some(s@),
        None => None,
    }
}

/// How a request for an existing file is answered, from its MIME type, the
/// `meta` and `download` flags and the `Accept` header.
pub fn file_response_mode(mime: &str, want_meta: bool, want_download: bool, accept: Option<&str>) -> (r: FileResponseMode)
    ensures
        r == response_mode(mime@, want_meta, want_download, opt_str(accept)),
{
    if want_meta {
        return FileResponseMode::Metadata;
    }
    let accept_json = match accept {
        Some(a) => {
            let av = chars_of(a);
            let j = chars_of("application/json");
            crate::errors::contains_chars(&av, &j)
        },
        None => false,
    };
    if !crate::files::is_text_mime(mime) || want_download || !accept_json {
        FileResponseMode::Raw
    } else {
        FileResponseMode::TextPreview
    }
}

// ---------------------------------------------------- directory listings

/// What orders a directory entry: whether it is a directory, and its name.
#[derive(Debug, Clone)]
pub struct DirectoryEntryKey {
    pub name: String,
    pub is_dir: bool,
}

/// Directories first, then by name.
pub open spec fn listing_compare(a: DirectoryEntryKey, b: DirectoryEntryKey) -> int {
    if a.is_dir && !b.is_dir {
        -1
    } else if !a.is_dir && b.is_dir {
        1
    } else {
        compare_chars(a.name@, b.name@)
    }
}

proof fn lemma_listing_compare(a: DirectoryEntryKey, b: DirectoryEntryKey, c: DirectoryEntryKey)
    ensures
        listing_compare(a, b) == -listing_compare(b, a),
        listing_compare(a, b) <= 0 && listing_compare(b, c) <= 0 ==> listing_compare(a, c) <= 0,
        listing_compare(a, b) < 0 && listing_compare(b, c) <= 0 ==> listing_compare(a, c) < 0,
        listing_compare(a, b) <= 0 && listing_compare(b, c) < 0 ==> listing_compare(a, c) < 0,
{
    crate::work_item_order::lemma_compare_chars(a.name@, b.name@, c.name@);
    crate::work_item_order::lemma_compare_chars(b.name@, a.name@, c.name@);
}

/// `order` lists each entry once, directories first and by name, keeping
/// the input order of entries that tie.
pub open spec fn listing_sorted(entries: Seq<DirectoryEntryKey>, order: Seq<usize>) -> bool {
    &&& order.len() == entries.len()
    &&& order.no_duplicates()
    &&& forall|j: int| 0 <= j < order.len() ==> order[j] < entries.len()
    &&& forall|a: int, b: int|
        0 <= a < b < order.len() ==> listing_compare(
            #[trigger] entries[order[a] as int],
            #[trigger] entries[order[b] as int],
        ) <= 0
    &&& forall|a: int, b: int|
        0 <= a < b < order.len() && listing_compare(
            #[trigger] entries[order[a] as int],
            #[trigger] entries[order[b] as int],
        ) == 0 ==> order[a] < order[b]
}

fn listing_compare_keys(a: &DirectoryEntryKey, b: &DirectoryEntryKey) -> (c: i8)
    ensures
        c as int == listing_compare(*a, *b),
{
    if a.is_dir && !b.is_dir {
        -1
    } else if !a.is_dir && b.is_dir {
        1
    } else {
        crate::work_item_order::compare_names(a.name.as_str(), b.name.as_str())
    }
}

/// The order of a directory listing: a stable sort of the entries'
/// indices, directories first, then by name.
pub fn directory_listing_order(entries: &Vec<DirectoryEntryKey>) -> (order: Vec<usize>)
    ensures
        listing_sorted(entries@, order@),
        forall|a: int, b: int|
            0 <= a < b < order@.len() ==> listed_before(
                #[trigger] entries@[order@[a] as int],
                #[trigger] entries@[order@[b] as int],
            ),
{
    let mut order: Vec<usize> = Vec::new();
    let n = entries.len();
    let mut i: usize = 0;
    while i < n
        invariant
            i <= n == entries@.len(),
            order@.len() == i,
            order@.no_duplicates(),
            forall|j: int| 0 <= j < order@.len() ==> order@[j] < i,
            forall|a: int, b: int|
                0 <= a < b < order@.len() ==> listing_compare(
                    #[trigger] entries@[order@[a] as int],
                    #[trigger] entries@[order@[b] as int],
                ) <= 0,
            forall|a: int, b: int|
                0 <= a < b < order@.len() && listing_compare(
                    #[trigger] entries@[order@[a] as int],
                    #[trigger] entries@[order@[b] as int],
                ) == 0 ==> order@[a] < order@[b],
        decreases n - i,
    {
        let mut p: usize = 0;
        while p < order.len() && listing_compare_keys(&entries[order[p]], &entries[i]) <= 0
            invariant
                p <= order@.len(),
                i < entries@.len(),
                forall|j: int| 0 <= j < order@.len() ==> order@[j] < i,
                forall|q: int| 0 <= q < p ==> listing_compare(
                    #[trigger] entries@[order@[q] as int],
                    entries@[i as int],
                ) <= 0,
            decreases order.len() - p,
        {
            p = p + 1;
        }
        let ghost old_order = order@;
        order.insert(p, i);
        proof {
            let x = entries@[i as int];
            let ord = order@;
            assert(ord == old_order.insert(p as int, i));
            assert forall|j: int| 0 <= j < ord.len() implies ord[j] < i + 1 by {
                if j < p {
                    assert(ord[j] == old_order[j]);
                } else if j > p {
                    assert(ord[j] == old_order[j - 1]);
                }
            }
            assert forall|a: int, b: int| 0 <= a < b < ord.len() implies ord[a] != ord[b] by {
                if a < p && b < p {
                    assert(ord[a] == old_order[a] && ord[b] == old_order[b]);
                } else if a < p && b == p {
                    assert(ord[a] == old_order[a]);
                } else if a < p && b > p {
                    assert(ord[a] == old_order[a] && ord[b] == old_order[b - 1]);
                } else if a == p {
                    assert(ord[b] == old_order[b - 1]);
                } else {
                    assert(ord[a] == old_order[a - 1] && ord[b] == old_order[b - 1]);
                }
            }
            if p < old_order.len() {
                lemma_listing_compare(entries@[old_order[p as int] as int], x, x);
            }
            assert forall|a: int, b: int| 0 <= a < b < ord.len() implies listing_compare(
                #[trigger] entries@[ord[a] as int],
                #[trigger] entries@[ord[b] as int],
            ) <= 0 && (listing_compare(entries@[ord[a] as int], entries@[ord[b] as int]) == 0 ==> ord[a]
                < ord[b]) by {
                if b < p {
                    assert(ord[a] == old_order[a] && ord[b] == old_order[b]);
                } else if b == p {
                    assert(ord[a] == old_order[a]);
                    assert(listing_compare(entries@[old_order[a] as int], x) <= 0);
                } else if a < p {
                    assert(ord[a] == old_order[a] && ord[b] == old_order[b - 1]);
                } else if a == p {
                    assert(ord[b] == old_order[b - 1]);
                    let y = entries@[old_order[p as int] as int];
                    let z = entries@[old_order[b - 1] as int];
                    assert(listing_compare(y, x) > 0);
                    lemma_listing_compare(x, y, z);
                    if b - 1 > p {
                        assert(listing_compare(y, z) <= 0);
                    }
                    assert(listing_compare(x, z) < 0);
                } else {
                    assert(ord[a] == old_order[a - 1] && ord[b] == old_order[b - 1]);
                }
            }
        }
        i = i + 1;
    }
    proof {
        assert forall|a: int, b: int| 0 <= a < b < order@.len() implies listed_before(
            #[trigger] entries@[order@[a] as int],
            #[trigger] entries@[order@[b] as int],
        ) by {
            listings_put_directories_first_then_names_in_order(entries@, order@, a, b);
        }
    }
    order
}

// ------------------------------------------------------- path containment

/// Whether `path` lies within `root`, component by component.
pub open spec fn within_root(root: Seq<char>, path: Seq<char>) -> bool {
    crate::bindings::path_components(root).is_prefix_of(crate::bindings::path_components(path))
}

/// Refuses with `403` a requested path that leaves the workspace root:
/// first lexically, on the normalized path and root; then, when the file
/// system could resolve both (`canonical` and `canonical_root`), on the
/// resolved paths, which catches symlinks that point outside.
pub fn check_path_within_root(
    normalized: &str,
    normalized_root: &str,
    canonical: Option<&str>,
    canonical_root: Option<&str>,
) -> (r: Result<(), HttpError>)
    ensures
        !within_root(normalized_root@, normalized@) ==> (r matches Err(e) && plain_error(
            e,
            STATUS_FORBIDDEN,
            "path escapes workspace root"@,
        )),
        within_root(normalized_root@, normalized@) ==> match (canonical, canonical_root) {
            (Some(c), Some(cr)) => if within_root(cr@, c@) {
                r is Ok
            } else {
                r matches Err(e) && plain_error(e, STATUS_FORBIDDEN, "path escapes workspace root (symlink)"@)
            },
            _ => r is Ok,
        },
{
    if !crate::bindings::path_starts_with(normalized, normalized_root) {
        return Err(forbidden(String::from_str("path escapes workspace root")));
    }
    match (canonical, canonical_root) {
        (Some(c), Some(cr)) => {
            if crate::bindings::path_starts_with(c, cr) {
                Ok(())
            } else {
                Err(forbidden(String::from_str("path escapes workspace root (symlink)")))
            }
        },
        _ => Ok(()),
    }
}

// ------------------------------------------------ listing order, stated

/// `x` comes no later than `y` in the lexicographic order of names: `x` is
/// a prefix of `y`, or at the first position where they differ, `x` has
/// the smaller character.
pub open spec fn name_precedes(x: Seq<char>, y: Seq<char>) -> bool {
    ||| x.is_prefix_of(y)
    ||| exists|k: int|
        0 <= k < x.len() && k < y.len() && #[trigger] x.take(k) == y.take(k) && (x[k] as int) < (y[k]
            as int)
}

/// `x` may be listed before `y`: no file before a directory, and names of
/// the same kind in lexicographic order.
pub open spec fn listed_before(x: DirectoryEntryKey, y: DirectoryEntryKey) -> bool {
    &&& y.is_dir ==> x.is_dir
    &&& x.is_dir == y.is_dir ==> name_precedes(x.name@, y.name@)
}

proof fn lemma_compare_chars_precedes(x: Seq<char>, y: Seq<char>)
    ensures
        compare_chars(x, y) <= 0 ==> name_precedes(x, y),
    decreases x.len(),
{
    if x.len() == 0 {
        assert(x =~= y.subrange(0, 0));
    } else if y.len() == 0 {
    } else {
        let xs = x.drop_first();
        let ys = y.drop_first();
        lemma_compare_chars_precedes(xs, ys);
        if (x[0] as int) < (y[0] as int) {
            assert(x.take(0) =~= y.take(0));
            assert(name_precedes(x, y));
        } else if (x[0] as int) == (y[0] as int) {
            assert(x[0] == y[0]);
            if compare_chars(xs, ys) <= 0 {
                if xs.is_prefix_of(ys) {
                    assert forall|i: int| 0 <= i < x.len() implies x[i] == y.subrange(0, x.len() as int)[i] by {
                        if i > 0 {
                            assert(x[i] == xs[i - 1]);
                            assert(xs[i - 1] == ys.subrange(0, xs.len() as int)[i - 1]);
                        }
                    }
                    assert(x =~= y.subrange(0, x.len() as int));
                } else {
                    let k = choose|k: int|
                        0 <= k < xs.len() && k < ys.len() && #[trigger] xs.take(k) == ys.take(k)
                            && (xs[k] as int) < (ys[k] as int);
                    let xt = x.take(k + 1);
                    let yt = y.take(k + 1);
                    assert forall|i: int| 0 <= i < k + 1 implies #[trigger] xt[i] == yt[i] by {
                        if i > 0 {
                            assert(xs.take(k)[i - 1] == ys.take(k)[i - 1]);
                        }
                    }
                    assert(xt =~= yt);
                    assert(x[k + 1] == xs[k]);
                    assert(y[k + 1] == ys[k]);
                }
            }
        }
    }
}

/// In a sorted listing every directory comes before every file, and two
/// entries of the same kind come in the lexicographic order of their whole
/// names; entries with equal names keep their input order.
pub proof fn listings_put_directories_first_then_names_in_order(
    entries: Seq<DirectoryEntryKey>,
    order: Seq<usize>,
    a: int,
    b: int,
)
    requires
        listing_sorted(entries, order),
        0 <= a < b < order.len(),
    ensures
        entries[order[b] as int].is_dir ==> entries[order[a] as int].is_dir,
        entries[order[a] as int].is_dir == entries[order[b] as int].is_dir ==> name_precedes(
            entries[order[a] as int].name@,
            entries[order[b] as int].name@,
        ),
        entries[order[a] as int].is_dir == entries[order[b] as int].is_dir && entries[order[a]
            as int].name@ == entries[order[b] as int].name@ ==> order[a] < order[b],
{
    let x = entries[order[a] as int];
    let y = entries[order[b] as int];
    assert(listing_compare(x, y) <= 0);
    lemma_compare_chars_precedes(x.name@, y.name@);
    if x.is_dir == y.is_dir && x.name@ == y.name@ {
        assert(compare_chars(x.name@, y.name@) == 0) by {
            crate::work_item_order::lemma_compare_chars(x.name@, x.name@, x.name@);
        }
    }
}

/// A file asked for with `Accept` naming `application/json`, without the
/// `meta` or `download` flag, is answered with a JSON text preview exactly
/// when its MIME type is a `text/` type, JSON, JavaScript, XML, YAML, a
/// shell script or TOML; every other type is answered with its raw bytes,
/// and so is every download.
pub proof fn json_requests_preview_exactly_the_text_types(mime: Seq<char>, accept: Seq<char>)
    requires
        crate::errors::contains_seq(accept, "application/json"@),
    ensures
        response_mode(mime, false, false, Some(accept)) == FileResponseMode::TextPreview <==> {
            ||| "text/"@.is_prefix_of(mime)
            ||| mime == "application/json"@
            ||| mime == "application/javascript"@
            ||| mime == "application/xml"@
            ||| mime == "application/x-yaml"@
            ||| mime == "application/x-sh"@
            ||| mime == "application/x-toml"@
        },
        response_mode(mime, false, false, Some(accept)) != FileResponseMode::TextPreview ==> response_mode(
            mime,
            false,
            false,
            Some(accept),
        ) == FileResponseMode::Raw,
        response_mode(mime, false, true, Some(accept)) == FileResponseMode::Raw,
{
}

} // verus!
