//! What the templates of the gallery are given: one context for the page of
//! each example, and one entry for each example in the overview.

use vstd::prelude::*;
use vstd::string::StringExecFns;
use crate::error::GalleryError;
use crate::metadata::{images_of, script_url, ExampleMetadata, Record};
use crate::select::{nth_or_last, pick};
use crate::text::texts;

verus! {

/// The HTML that `pulldown_cmark` writes for a markdown text, read without
/// any extension.
pub uninterp spec fn markdown_html(markdown: Seq<char>) -> Seq<char>;

/// Parses `markdown` with `pulldown_cmark::Parser::new` and writes the events
/// with `pulldown_cmark::html::push_html` into an empty text.
#[verifier::external_body]
fn render_markdown(markdown: &str) -> (html: String)
    ensures
        html@ == markdown_html(markdown@),
{
    let mut html = String::new();
    pulldown_cmark::html::push_html(&mut html, pulldown_cmark::Parser::new(markdown));
    html
}

/// The items with `", "` between them.
pub open spec fn comma_join(items: Seq<Seq<char>>) -> Seq<char>
    decreases items.len(),
{
    if items.len() == 0 {
        Seq::empty()
    } else if items.len() == 1 {
        items[0]
    } else {
        comma_join(items.drop_last()) + ", "@ + items.last()
    }
}

/// The items as an enumeration: `", "` between them, and `" and "` as well
/// before the last of two or more.
pub open spec fn comma_and(items: Seq<Seq<char>>) -> Seq<char> {
    if items.len() <= 1 {
        comma_join(items)
    } else {
        comma_join(items.drop_last()) + ", "@ + " and "@ + items.last()
    }
}

/// Joins the items of `list` to an enumeration.
pub fn comma_and_join(list: &Vec<String>) -> (joined: String)
    ensures
        joined@ == comma_and(texts(list@)),
{
    let ghost all = texts(list@);
    let mut joined = String::new();
    let mut i: usize = 0;
    assert(all.take(0) =~= Seq::<Seq<char>>::empty());
    while i < list.len()
        invariant
            i <= list@.len(),
            all == texts(list@),
            joined@ == if i == all.len() {
                comma_and(all)
            } else {
                comma_join(all.take(i as int))
            },
        decreases list@.len() - i,
    {
        proof {
            assert(all.take(i + 1).drop_last() =~= all.take(i as int));
            assert(all.take(i + 1).last() == list@[i as int]@);
            if i + 1 == all.len() {
                assert(all.take(i + 1) =~= all);
                assert(all.drop_last() =~= all.take(i as int));
            }
        }
        if i > 0 {
            joined.append(", ");
            if i == list.len() - 1 {
                joined.append(" and ");
            }
        } else {
            assert(joined@ + list@[0]@ =~= list@[0]@);
        }
        joined.append(list[i].as_str());
        i += 1;
    }
    joined
}

/// A copy of a list of texts.
pub fn copy_texts(list: &Vec<String>) -> (copy: Vec<String>)
    ensures
        texts(copy@) == texts(list@),
{
    let mut copy: Vec<String> = Vec::new();
    let mut i: usize = 0;
    while i < list.len()
        invariant
            i <= list@.len(),
            copy@.len() == i,
            forall|k: int| 0 <= k < i ==> copy@[k]@ == list@[k]@,
        decreases list@.len() - i,
    {
        copy.push(list[i].clone());
        i += 1;
    }
    assert(texts(copy@) =~= texts(list@));
    copy
}

/// What the page of an example shows.
#[derive(Clone, Debug, PartialEq, Eq)]
pub struct ExampleContext {
    pub name: String,
    /// The authors as one enumeration.
    pub authors: String,
    /// The description as HTML.
    pub description: String,
    pub images: Vec<String>,
    pub repository: String,
    pub revision: String,
    pub script: String,
    /// The page that shows the script at its revision.
    pub script_url: String,
    pub tags: Vec<String>,
}

/// The mathematical content of an [`ExampleContext`].
pub ghost struct PageView {
    pub name: Seq<char>,
    pub authors: Seq<char>,
    pub description: Seq<char>,
    pub images: Seq<Seq<char>>,
    pub repository: Seq<char>,
    pub revision: Seq<char>,
    pub script: Seq<char>,
    pub script_url: Seq<char>,
    pub tags: Seq<Seq<char>>,
}

impl View for ExampleContext {
    type V = PageView;

    open spec fn view(&self) -> PageView {
        PageView {
            name: self.name@,
            authors: self.authors@,
            description: self.description@,
            images: texts(self.images@),
            repository: self.repository@,
            revision: self.revision@,
            script: self.script@,
            script_url: self.script_url@,
            tags: texts(self.tags@),
        }
    }
}

/// What the overview shows of an example.
#[derive(Clone, Debug, PartialEq, Eq)]
pub struct ExampleListContext {
    pub name: String,
    /// Path of the thumbnail below the root of the gallery, if the example
    /// has an image.
    pub thumbnail: Option<String>,
    pub tags: Vec<String>,
    /// Path of the example's page below the root of the gallery.
    pub href: String,
}

/// The mathematical content of an [`ExampleListContext`].
pub ghost struct EntryView {
    pub name: Seq<char>,
    pub thumbnail: Option<Seq<char>>,
    pub tags: Seq<Seq<char>>,
    pub href: Seq<char>,
}

impl View for ExampleListContext {
    type V = EntryView;

    open spec fn view(&self) -> EntryView {
        EntryView {
            name: self.name@,
            thumbnail: match self.thumbnail {
                Some(path) => Some(path@),
                None => None,
            },
            tags: texts(self.tags@),
            href: self.href@,
        }
    }
}

/// The page of an example that shows `images`; none where the address of the
/// script cannot be formed.
pub open spec fn page_of(record: Record, images: Seq<Seq<char>>) -> Result<PageView, GalleryError> {
    match script_url(record.repository, record.revision, record.script) {
        Err(e) => Err(e),
        Ok(url) => Ok(
            PageView {
                name: record.name,
                authors: comma_and(record.authors),
                description: markdown_html(record.description),
                images,
                repository: record.repository,
                revision: record.revision,
                script: record.script,
                script_url: url,
                tags: record.tags,
            },
        ),
    }
}

/// The thumbnail of an example that shows `images`: the image at the
/// thumbnail index, or the last image where no index is set, below the
/// directory of the example.
pub open spec fn thumbnail_of(record: Record, images: Seq<Seq<char>>) -> Option<Seq<char>> {
    match pick(images, record.thumbnail_index) {
        Some(image) => Some(record.id + "/"@ + image),
        None => None,
    }
}

/// The entry of an example that shows `images`.
pub open spec fn entry_of(record: Record, images: Seq<Seq<char>>) -> EntryView {
    EntryView {
        name: record.name,
        thumbnail: thumbnail_of(record, images),
        tags: record.tags,
        href: record.id + "/"@,
    }
}

/// An example whose run left no log shows no image and has no thumbnail,
/// whatever its record asks for; nothing fails.
pub proof fn lemma_no_log_no_images(record: Record)
    ensures
        images_of(record, None) == Ok::<Seq<Seq<char>>, GalleryError>(Seq::empty()),
        thumbnail_of(record, Seq::empty()) is None,
        entry_of(record, Seq::empty()).thumbnail is None,
{
}

impl ExampleMetadata {
    /// What the page of the example shows, given its images.
    pub fn page(&self, images: Vec<String>) -> (r: Result<ExampleContext, GalleryError>)
        ensures
            match page_of(self@, texts(images@)) {
                Ok(page) => r is Ok && r->Ok_0@ == page,
                Err(e) => r is Err && r->Err_0 == e,
            },
    {
        let script_url = match self.get_script_url() {
            Ok(url) => url,
            Err(e) => {
                return Err(e);
            },
        };
        Ok(
            ExampleContext {
                name: self.name.clone(),
                authors: comma_and_join(&self.authors),
                description: render_markdown(self.description.as_str()),
                images,
                repository: self.repository.clone(),
                revision: self.revision.clone(),
                script: self.script.clone(),
                script_url,
                tags: copy_texts(&self.tags),
            },
        )
    }

    /// What the overview shows of the example, given its images.
    pub fn list_entry(&self, images: &Vec<String>) -> (entry: ExampleListContext)
        ensures
            entry@ == entry_of(self@, texts(images@)),
    {
        let thumbnail = match nth_or_last(images, self.thumbnail_index) {
            Some(image) => {
                let mut path = self.id.clone();
                path.append("/");
                path.append(image.as_str());
                assert(pick(texts(images@), self.thumbnail_index) == Some(image@));
                Some(path)
            },
            None => {
                assert(pick(texts(images@), self.thumbnail_index) is None);
                None
            },
        };
        let mut href = self.id.clone();
        href.append("/");
        ExampleListContext {
            name: self.name.clone(),
            thumbnail,
            tags: copy_texts(&self.tags),
            href,
        }
    }
}

} // verus!
