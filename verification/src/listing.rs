//! Directory listings: the entries that the page of a directory carries in an
//! embedded JSON block, found by scraper and read by serde_json.

use crate::json::{json_document, read_json, Json};
use crate::segments::{split_path, split_segments, texts};
use crate::text::same_text;
use vstd::prelude::*;
use vstd::utf8::encode_utf8;

verus! {

/// `scraper::error::SelectorErrorKind`, of which nothing is known here: that
/// there is one says that the selector was rejected.
#[verifier::external_type_specification]
#[verifier::external_body]
pub struct ExSelectorErrorKind(scraper::error::SelectorErrorKind);

/// What an entry of a listing is.
#[derive(Debug, Clone, Copy, PartialEq, Eq, Structural)]
pub enum EntryKind {
    File,
    Directory,
    SymlinkFile,
    SymlinkDirectory,
}

/// The kind that a `contentType` tag of a listing stands for, if any.
pub open spec fn entry_kind(tag: Seq<char>) -> Option<EntryKind> {
    if tag == "file"@ {
        Some(EntryKind::File)
    } else if tag == "directory"@ {
        Some(EntryKind::Directory)
    } else if tag == "symlink_file"@ {
        Some(EntryKind::SymlinkFile)
    } else if tag == "symlink_directory"@ {
        Some(EntryKind::SymlinkDirectory)
    } else {
        None
    }
}

impl EntryKind {
    /// Reads a `contentType` tag. An unknown tag gives `None`.
    pub fn from_tag(tag: &str) -> (kind: Option<EntryKind>)
        ensures
            kind == entry_kind(tag@),
    {
        if same_text(tag, "file") {
            Some(EntryKind::File)
        } else if same_text(tag, "directory") {
            Some(EntryKind::Directory)
        } else if same_text(tag, "symlink_file") {
            Some(EntryKind::SymlinkFile)
        } else if same_text(tag, "symlink_directory") {
            Some(EntryKind::SymlinkDirectory)
        } else {
            None
        }
    }

    /// Whether the entry is a symbolic link, to a file or to a directory.
    pub open spec fn is_symlink(self) -> bool {
        self == EntryKind::SymlinkFile || self == EntryKind::SymlinkDirectory
    }
}

/// One row of a listing as the page gives it: three strings.
pub struct ItemView {
    pub content_type: Seq<char>,
    pub name: Seq<char>,
    pub path: Seq<char>,
}

/// One row of a listing as the page gives it: the tag of its kind, its name,
/// and its path from the root of the repository.
#[derive(Debug, PartialEq, Eq)]
pub struct ListingItem {
    pub content_type: String,
    pub name: String,
    pub path: String,
}

impl View for ListingItem {
    type V = ItemView;

    open spec fn view(&self) -> ItemView {
        ItemView { content_type: self.content_type@, name: self.name@, path: self.path@ }
    }
}

/// One entry of a directory: a row whose kind is known.
pub struct EntryView {
    pub name: Seq<char>,
    pub full_path: Seq<Seq<char>>,
    pub kind: EntryKind,
}

/// One entry of a directory: its name, the segments of its path from the
/// root of the repository, and its kind.
#[derive(Debug, PartialEq, Eq)]
pub struct DirectoryEntry {
    pub name: String,
    pub full_path: Vec<String>,
    pub kind: EntryKind,
}

impl View for DirectoryEntry {
    type V = EntryView;

    open spec fn view(&self) -> EntryView {
        EntryView { name: self.name@, full_path: texts(self.full_path@), kind: self.kind }
    }
}

impl ItemView {
    /// The entry that the row describes, unless its tag is unknown.
    pub open spec fn entry(self) -> Option<EntryView> {
        match entry_kind(self.content_type) {
            Some(kind) => Some(
                EntryView { name: self.name, full_path: split_segments(self.path), kind },
            ),
            None => None,
        }
    }
}

impl Clone for ListingItem {
    fn clone(&self) -> (copy: Self)
        ensures
            copy@ == self@,
    {
        ListingItem {
            content_type: self.content_type.clone(),
            name: self.name.clone(),
            path: self.path.clone(),
        }
    }
}

impl ListingItem {
    /// Interprets the row: reads its tag and splits its path. A row with an
    /// unknown tag gives `None`.
    pub fn entry(&self) -> (entry: Option<DirectoryEntry>)
        ensures
            match entry {
                Some(e) => self@.entry() == Some(e@),
                None => self@.entry() is None,
            },
    {
        match EntryKind::from_tag(self.content_type.as_str()) {
            Some(kind) => Some(
                DirectoryEntry {
                    name: self.name.clone(),
                    full_path: split_path(self.path.as_str()),
                    kind,
                },
            ),
            None => None,
        }
    }
}

/// The views of the rows of `v`.
pub open spec fn item_views(v: Seq<ListingItem>) -> Seq<ItemView> {
    Seq::new(v.len(), |i: int| v[i]@)
}

/// The views of the rows, where there are rows.
pub open spec fn listing_view(listing: Option<Vec<ListingItem>>) -> Option<Seq<ItemView>> {
    match listing {
        Some(items) => Some(item_views(items@)),
        None => None,
    }
}

/// The row that a JSON value describes: an object whose members
/// `contentType`, `name` and `path` are strings.
pub open spec fn item_of(value: Json) -> Option<ItemView> {
    match (value.text_at("contentType"@), value.text_at("name"@), value.text_at("path"@)) {
        (Some(content_type), Some(name), Some(path)) => Some(ItemView { content_type, name, path }),
        _ => None,
    }
}

/// The rows that the JSON values describe, if each of them describes one.
pub open spec fn items_of(elements: Seq<Json>) -> Option<Seq<ItemView>> {
    if forall|i: int| 0 <= i < elements.len() ==> (#[trigger] item_of(elements[i])) is Some {
        Some(Seq::new(elements.len(), |i: int| item_of(elements[i])->0))
    } else {
        None
    }
}

/// The rows of the listing in a document: the array at `payload.tree.items`,
/// each element of which must describe a row.
pub open spec fn document_items(document: Json) -> Option<Seq<ItemView>> {
    match document.member("payload"@) {
        Some(payload) => match payload.member("tree"@) {
            Some(tree) => match tree.member("items"@) {
                Some(items) => match items.elements() {
                    Some(elements) => items_of(elements),
                    None => None,
                },
                None => None,
            },
            None => None,
        },
        None => None,
    }
}

/// The rows in one embedded block: the block must be JSON text and hold a
/// listing.
pub open spec fn block_items(block: Seq<char>) -> Option<Seq<ItemView>> {
    match json_document(block) {
        Some(document) => document_items(document),
        None => None,
    }
}

/// The rows of all the blocks, in order, if each block holds a listing.
pub open spec fn blocks_items(blocks: Seq<Seq<char>>) -> Option<Seq<ItemView>>
    decreases blocks.len(),
{
    if blocks.len() == 0 {
        Some(Seq::empty())
    } else {
        match (blocks_items(blocks.drop_last()), block_items(blocks.last())) {
            (Some(front), Some(last)) => Some(front + last),
            _ => None,
        }
    }
}

/// The selector of the script elements that carry the page's embedded data.
pub open spec fn data_selector() -> Seq<char> {
    "script[type=\"application/json\"][data-target=\"react-app.embeddedData\"]"@
}

/// The inner HTML of the elements of `document` that match `selector`, as
/// scraper finds them: in the order in which the parser put the nodes into
/// its tree. `None` where scraper rejects the selector. The inner HTML is
/// scraper's serialization of what an element holds: `&`, `<` and `>` of a
/// text come as character references.
pub uninterp spec fn selected_inner_html(document: Seq<char>, selector: Seq<char>) -> Option<
    Seq<Seq<char>>,
>;

/// The largest page that is read, in bytes. scraper holds the texts of a
/// page in buffers that cannot grow beyond 2^31 bytes, and a text can grow
/// threefold while it is parsed.
pub const PAGE_LIMIT: usize = 0x2000_0000;

/// The listing that a page carries: the rows of its embedded blocks. A page
/// without such a block has no rows; a block that holds no listing spoils
/// the page. A page above the limit is not read.
pub open spec fn page_items(body: Seq<char>) -> Option<Seq<ItemView>> {
    if encode_utf8(body).len() > PAGE_LIMIT {
        None
    } else {
        match selected_inner_html(body, data_selector()) {
            Some(blocks) => blocks_items(blocks),
            None => None,
        }
    }
}

/// Once a block fails, the blocks as a whole fail.
proof fn lemma_blocks_fail_from(blocks: Seq<Seq<char>>, n: int)
    requires
        0 <= n <= blocks.len(),
        blocks_items(blocks.take(n)) is None,
    ensures
        blocks_items(blocks) is None,
    decreases blocks.len() - n,
{
    if n < blocks.len() {
        assert(blocks.take(n + 1).drop_last() =~= blocks.take(n));
        lemma_blocks_fail_from(blocks, n + 1);
    } else {
        assert(blocks.take(n) =~= blocks);
    }
}

/// Reads one row from a JSON value.
pub fn read_item(value: &Json) -> (item: Option<ListingItem>)
    ensures
        match item {
            Some(i) => item_of(*value) == Some(i@),
            None => item_of(*value) is None,
        },
{
    let content_type = match value.get_text("contentType") {
        Some(s) => s.clone(),
        None => {
            return None;
        },
    };
    let name = match value.get_text("name") {
        Some(s) => s.clone(),
        None => {
            return None;
        },
    };
    let path = match value.get_text("path") {
        Some(s) => s.clone(),
        None => {
            return None;
        },
    };
    Some(ListingItem { content_type, name, path })
}

/// Projects the listing out of a document: the rows at `payload.tree.items`.
/// Gives `None` where the document has another shape.
pub fn listing_items(document: &Json) -> (listing: Option<Vec<ListingItem>>)
    ensures
        listing_view(listing) == document_items(*document),
{
    let payload = match document.get("payload") {
        Some(v) => v,
        None => {
            return None;
        },
    };
    let tree = match payload.get("tree") {
        Some(v) => v,
        None => {
            return None;
        },
    };
    let items = match tree.get("items") {
        Some(v) => v,
        None => {
            return None;
        },
    };
    let elements = match items.as_array() {
        Some(v) => v,
        None => {
            return None;
        },
    };
    let mut listing: Vec<ListingItem> = Vec::new();
    let mut i: usize = 0;
    while i < elements.len()
        invariant
            0 <= i <= elements.len(),
            listing.len() == i,
            document_items(*document) == items_of(elements@),
            forall|j: int| 0 <= j < i ==> item_of(elements@[j]) == Some(#[trigger] listing@[j]@),
        decreases elements.len() - i,
    {
        match read_item(&elements[i]) {
            Some(item) => {
                listing.push(item);
            },
            None => {
                assert(item_of(elements@[i as int]) is None);
                return None;
            },
        }
        i = i + 1;
    }
    proof {
        assert forall|j: int| 0 <= j < elements@.len() implies (#[trigger] item_of(
            elements@[j],
        )) is Some by {
            assert(item_of(elements@[j]) == Some(listing@[j]@));
        }
        assert(item_views(listing@) =~= items_of(elements@)->0);
    }
    Some(listing)
}

/// Calls `scraper::Selector::parse` on `selector` and
/// `scraper::Html::parse_document` on `document`, walks `Html::select`, and
/// takes `ElementRef::inner_html` of each element found. The contract claims
/// that the outcome depends on the two texts alone: its name is
/// `selected_inner_html`, which is `None` where the selector is rejected.
/// Two kinds of input are left out. A document above the limit: the parser
/// panics where one of its buffers would outgrow 2^31 bytes. And every
/// selector but the one for the embedded data, which is matched on an
/// element by itself: a selector such as `:has(..)` is matched by calls that
/// nest as deep as the elements of the document do, without a bound.
#[verifier::external_body]
fn select_inner_html(document: &str, selector: &str) -> (found: Result<
    Vec<String>,
    scraper::error::SelectorErrorKind,
>)
    requires
        encode_utf8(document@).len() <= PAGE_LIMIT,
        selector@ == data_selector(),
    ensures
        match found {
            Ok(blocks) => selected_inner_html(document@, selector@) == Some(texts(blocks@)),
            Err(_) => selected_inner_html(document@, selector@) is None,
        },
{
    let selector = scraper::Selector::parse(selector)?;
    let html = scraper::Html::parse_document(document);
    Ok(html.select(&selector).map(|element| element.inner_html()).collect())
}

/// Reads the listings out of embedded blocks: each must be JSON text that
/// holds a listing, else the result is `None`.
pub fn read_blocks(blocks: &Vec<String>) -> (listing: Option<Vec<ListingItem>>)
    ensures
        listing_view(listing) == blocks_items(texts(blocks@)),
{
    let ghost all = texts(blocks@);
    let mut listing: Vec<ListingItem> = Vec::new();
    let mut i: usize = 0;
    assert(all.take(0) =~= Seq::<Seq<char>>::empty());
    assert(item_views(listing@) =~= Seq::<ItemView>::empty());
    while i < blocks.len()
        invariant
            0 <= i <= blocks.len(),
            all == texts(blocks@),
            blocks_items(all.take(i as int)) == Some(item_views(listing@)),
        decreases blocks.len() - i,
    {
        let ghost before = item_views(listing@);
        proof {
            assert(all.take(i + 1).drop_last() =~= all.take(i as int));
            assert(all.take(i + 1).last() == blocks@[i as int]@);
        }
        let document = match read_json(blocks[i].as_str()) {
            Some(document) => document,
            None => {
                proof {
                    lemma_blocks_fail_from(all, i + 1);
                }
                return None;
            },
        };
        let mut more = match listing_items(&document) {
            Some(more) => more,
            None => {
                proof {
                    lemma_blocks_fail_from(all, i + 1);
                }
                return None;
            },
        };
        let ghost added = item_views(more@);
        listing.append(&mut more);
        assert(item_views(listing@) =~= before + added);
        i = i + 1;
    }
    assert(all.take(blocks.len() as int) =~= all);
    Some(listing)
}

/// Reads the listing that the page of a directory carries. A page without an
/// embedded block has no rows, which is no error; a block that is no JSON
/// text, or holds no listing, gives `None`, and so does a page above the
/// limit.
pub fn read_listing(body: &str) -> (listing: Option<Vec<ListingItem>>)
    ensures
        listing_view(listing) == page_items(body@),
{
    if body.as_bytes().len() > PAGE_LIMIT {
        return None;
    }
    match select_inner_html(
        body,
        "script[type=\"application/json\"][data-target=\"react-app.embeddedData\"]",
    ) {
        Ok(blocks) => read_blocks(&blocks),
        Err(_) => None,
    }
}

} // verus!
