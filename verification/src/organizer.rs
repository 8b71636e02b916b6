//! Decisions of the organizer peer: version handshake, folder page
//! assembly, and the transactional bracket around folder mutations.
//!
//! The organizer is a gRPC peer; its transport, its database check task
//! and its UI scripts live at the edge.  What it decides — whether the
//! server's version is acceptable, what a folder page shows, and
//! whether a folder operation commits or rolls back — stands here.

use vstd::prelude::*;

use crate::catalog::{Catalog, CatalogState};
use crate::models::Video;
use crate::txn::{Transaction, commit, rollback};

verus! {

/// What `semver::Version::parse` yields for a version text: its major,
/// minor and patch numbers, or nothing when the text is no semantic
/// version.  The result depends on the text alone; it is left
/// uninterpreted and computed only by the trusted wrapper below.
pub uninterp spec fn semver_of(s: Seq<char>) -> Option<(u64, u64, u64)>;

/// Relies on semver::Version::parse: parse a semantic version into its
/// numeric triple.
#[verifier::external_body]
pub fn parse_semver(s: &str) -> (r: Option<(u64, u64, u64)>)
    ensures
        r == semver_of(s@),
{
    match semver::Version::parse(s) {
        Ok(v) => Some((v.major, v.minor, v.patch)),
        Err(_) => None,
    }
}

/// The handshake rule: the peer and the server must agree on the major
/// version.  `None` when the own version text does not parse.
pub fn handshake_major_ok(my_version: &str, server_major: u64) -> (r: Option<bool>)
    ensures
        r is Some <==> semver_of(my_version@) is Some,
        r matches Some(ok) ==> ok == ((semver_of(my_version@)->0).0 == server_major),
{
    match parse_semver(my_version) {
        Some((major, _minor, _patch)) => Some(major == server_major),
        None => None,
    }
}

/// The argument of the organizer's open-folder action: which folder to
/// open.
pub struct OpenFolderArgs {
    pub id: String,
}

/// A folder, as the organizer stores it: its node id and its decoded
/// name.
pub struct FolderEntry {
    pub id: String,
    pub name: String,
}

/// One breadcrumb of the folder path.
pub struct Crumb {
    pub id: String,
    pub label: String,
}

/// One entry of a folder listing page.
pub enum ListingItem {
    Folder { id: String, title: String },
    MediaFile { id: String },
}

/// A folder navigation page: breadcrumbs when the path is deeper than
/// the root, and the listing.
pub struct NaviPage {
    pub breadcrumbs: Option<Vec<Crumb>>,
    pub items: Vec<ListingItem>,
}

/// The title a folder shows: its name, or a placeholder when unnamed.
pub open spec fn spec_folder_title(name: Seq<char>) -> Seq<char> {
    if name.len() == 0 {
        "<UNNAMED>"@
    } else {
        name
    }
}

/// The label of the breadcrumb at `i` of a path: the root is relabeled
/// `Home`, every other folder keeps its name.
pub open spec fn spec_crumb_label(path: Seq<FolderEntry>, i: int) -> Seq<char> {
    if i == 0 {
        "Home"@
    } else {
        path[i].name@
    }
}

/// Build the folder navigation page: breadcrumbs (only when the path
/// goes below the root), then the folders, then the media files.
pub fn navi_page(path: &Vec<FolderEntry>, folders: &Vec<FolderEntry>, videos: &Vec<Video>)
    -> (r: NaviPage)
    requires
        path@.len() >= 1,
    ensures
        // Breadcrumbs: absent at the root, else one per path entry.
        path@.len() == 1 ==> r.breadcrumbs is None,
        path@.len() > 1 ==> (r.breadcrumbs matches Some(bc)
            && bc@.len() == path@.len()
            && forall|i: int| 0 <= i < bc@.len()
                ==> (#[trigger] bc@[i]).id == path@[i].id
                    && bc@[i].label@ == spec_crumb_label(path@, i)),
        // The listing: the folders first, then the media files.
        r.items@.len() == folders@.len() + videos@.len(),
        forall|i: int| 0 <= i < folders@.len()
            ==> ((#[trigger] r.items@[i]) matches ListingItem::Folder { id, title }
                && id == folders@[i].id
                && title@ == spec_folder_title(folders@[i].name@)),
        forall|i: int| 0 <= i < videos@.len()
            ==> ((#[trigger] r.items@[folders@.len() + i]) matches ListingItem::MediaFile { id }
                && id == videos@[i].id),
{
    let breadcrumbs = if path.len() > 1 {
        let mut bc: Vec<Crumb> = Vec::new();
        let mut i: usize = 0;
        while i < path.len()
            invariant
                i <= path@.len(),
                bc@.len() == i,
                forall|j: int| 0 <= j < i
                    ==> (#[trigger] bc@[j]).id == path@[j].id
                        && bc@[j].label@ == spec_crumb_label(path@, j),
            decreases path@.len() - i,
        {
            let label = if i == 0 {
                String::from_str("Home")
            } else {
                path[i].name.clone()
            };
            bc.push(Crumb { id: path[i].id.clone(), label });
            i = i + 1;
        }
        Some(bc)
    } else {
        None
    };
    let mut items: Vec<ListingItem> = Vec::new();
    let mut i: usize = 0;
    while i < folders.len()
        invariant
            i <= folders@.len(),
            items@.len() == i,
            forall|j: int| 0 <= j < i
                ==> ((#[trigger] items@[j]) matches ListingItem::Folder { id, title }
                    && id == folders@[j].id
                    && title@ == spec_folder_title(folders@[j].name@)),
        decreases folders@.len() - i,
    {
        let title = if folders[i].name.as_str().unicode_len() == 0 {
            String::from_str("<UNNAMED>")
        } else {
            folders[i].name.clone()
        };
        items.push(ListingItem::Folder { id: folders[i].id.clone(), title });
        i = i + 1;
    }
    let mut k: usize = 0;
    while k < videos.len()
        invariant
            k <= videos@.len(),
            items@.len() == folders@.len() + k,
            forall|j: int| 0 <= j < folders@.len()
                ==> ((#[trigger] items@[j]) matches ListingItem::Folder { id, title }
                    && id == folders@[j].id
                    && title@ == spec_folder_title(folders@[j].name@)),
            forall|j: int| 0 <= j < k
                ==> ((#[trigger] items@[folders@.len() + j]) matches ListingItem::MediaFile { id }
                    && id == videos@[j].id),
        decreases videos@.len() - k,
    {
        items.push(ListingItem::MediaFile { id: videos[k].id.clone() });
        k = k + 1;
    }
    NaviPage { breadcrumbs, items }
}

/// Close the transactional bracket around a folder operation: commit
/// when the operation succeeded, roll back to the pre-transaction state
/// when it failed.
pub fn conclude_folder_op(cat: &mut Catalog, t: Transaction, succeeded: bool)
    ensures
        succeeded ==> final(cat)@ == old(cat)@
            && final(cat).spec_broken() == old(cat).spec_broken(),
        !succeeded ==> final(cat)@ == t.base_state()
            && final(cat).spec_broken() == t.base_broken(),
{
    if succeeded {
        commit(cat, t);
    } else {
        rollback(cat, t);
    }
}

} // verus!
