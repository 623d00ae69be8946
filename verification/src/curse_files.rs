//! The remote catalog: the file listing of one project, read page by page.
//!
//! A [`CurseFile`] is a cursor over that listing. It holds one page at a time
//! and says when the next one is needed; the caller fetches it. A consumer
//! that finds what it looks for stops pulling, and the rest of the catalog is
//! never fetched.

use vstd::prelude::*;
use vstd::string::StrSliceExecFns;
use vstd::string::StringExecFns;
use crate::credential::{header_value_accepts, is_header_value};
use crate::error::{ConfigError, SyncError};
use crate::text::{chars_of, decimal, to_decimal};

verus! {

/// One record of the catalog: a file of the project.
#[derive(Debug)]
pub struct ModFile {
    /// The identifier under which the file is downloaded.
    pub id: u64,
    /// The name of the file.
    pub file_name: String,
}

/// What a [`ModFile`] holds.
pub struct ModFileView {
    pub id: u64,
    pub file_name: Seq<char>,
}

impl DeepView for ModFile {
    type V = ModFileView;

    open spec fn deep_view(&self) -> ModFileView {
        ModFileView { id: self.id, file_name: self.file_name@ }
    }
}

impl View for ModFile {
    type V = ModFileView;

    open spec fn view(&self) -> ModFileView {
        self.deep_view()
    }
}

/// One page of the catalog, as the service answered.
#[derive(Debug)]
pub struct Page {
    /// The records of the page.
    pub data: Vec<ModFile>,
    /// How many records the whole catalog holds.
    pub total_count: u64,
}

/// What a [`Page`] holds.
pub struct PageView {
    pub data: Seq<ModFileView>,
    pub total_count: u64,
}

impl DeepView for Page {
    type V = PageView;

    open spec fn deep_view(&self) -> PageView {
        PageView { data: self.data.deep_view(), total_count: self.total_count }
    }
}

impl View for Page {
    type V = PageView;

    open spec fn view(&self) -> PageView {
        self.deep_view()
    }
}

/// What pulling on the cursor gives.
#[derive(Debug)]
pub enum Pull {
    /// The next record of the catalog.
    Item(ModFile),
    /// The buffer is empty: the page of this index is to be fetched and
    /// supplied before the next pull.
    Fetch { page_index: u32, page_size: u32 },
    /// The catalog has ended.
    End,
    /// A page could not be fetched. The cursor yields nothing more.
    Failed,
}

/// What a [`Pull`] holds.
pub enum PullView {
    Item(ModFileView),
    Fetch { page_index: u32, page_size: u32 },
    End,
    Failed,
}

impl DeepView for Pull {
    type V = PullView;

    open spec fn deep_view(&self) -> PullView {
        match self {
            Pull::Item(file) => PullView::Item(file@),
            Pull::Fetch { page_index, page_size } => PullView::Fetch {
                page_index: *page_index,
                page_size: *page_size,
            },
            Pull::End => PullView::End,
            Pull::Failed => PullView::Failed,
        }
    }
}

impl View for Pull {
    type V = PullView;

    open spec fn view(&self) -> PullView {
        self.deep_view()
    }
}

/// The number of records asked for in one page.
pub const PAGE_SIZE: u32 = 50;

/// A cursor over the catalog of one project: lazy, finite, and read once.
pub struct CurseFile {
    project_id: String,
    api_key: String,
    /// The index of the page to fetch next.
    page: u32,
    per_page: u32,
    /// The records of the current page that were not pulled yet, the next one
    /// last.
    files: Vec<ModFile>,
    /// The size of the catalog, as the last page reported it.
    total: u64,
    failed: bool,
}

/// The state of a [`CurseFile`].
pub struct CurseFileView {
    pub project_id: Seq<char>,
    pub api_key: Seq<char>,
    /// The index of the page to fetch next; the number of pages fetched.
    pub page: u32,
    pub per_page: u32,
    /// The records of the current page that were not pulled yet, in order.
    pub buffered: Seq<ModFileView>,
    /// The size of the catalog, as the last page reported it.
    pub total: u64,
    /// A page could not be fetched.
    pub failed: bool,
}

impl CurseFileView {
    /// The state before the first pull.
    pub open spec fn fresh(project_id: Seq<char>, api_key: Seq<char>) -> CurseFileView {
        CurseFileView {
            project_id,
            api_key,
            page: 0,
            per_page: PAGE_SIZE,
            buffered: Seq::empty(),
            total: 0,
            failed: false,
        }
    }

    /// No page is left to fetch: a page was fetched before and the pages so far
    /// cover the reported size of the catalog. A cursor that has counted as
    /// many pages as a page index can hold is exhausted too.
    pub open spec fn exhausted(self) -> bool {
        (self.page > 0 && self.page * self.per_page >= self.total) || self.page == u32::MAX
    }

    /// What the next pull gives.
    pub open spec fn pull(self) -> PullView {
        if self.failed {
            PullView::Failed
        } else if self.buffered.len() > 0 {
            PullView::Item(self.buffered[0])
        } else if self.exhausted() {
            PullView::End
        } else {
            PullView::Fetch { page_index: self.page, page_size: self.per_page }
        }
    }

    /// The state after the next pull: a pulled record leaves the buffer, and
    /// nothing else changes.
    pub open spec fn pulled(self) -> CurseFileView {
        if !self.failed && self.buffered.len() > 0 {
            CurseFileView { buffered: self.buffered.drop_first(), ..self }
        } else {
            self
        }
    }

    /// The state after the caller supplied the page it was asked for, or
    /// `None` where it could not fetch it.
    pub open spec fn supplied(self, page: Option<PageView>) -> CurseFileView {
        match page {
            Some(page) => CurseFileView {
                page: if self.page < u32::MAX {
                    (self.page + 1) as u32
                } else {
                    self.page
                },
                buffered: page.data,
                total: page.total_count,
                ..self
            },
            None => CurseFileView { buffered: Seq::empty(), failed: true, ..self },
        }
    }
}

impl View for CurseFile {
    type V = CurseFileView;

    closed spec fn view(&self) -> CurseFileView {
        CurseFileView {
            project_id: self.project_id@,
            api_key: self.api_key@,
            page: self.page,
            per_page: self.per_page,
            buffered: self.files.deep_view().reverse(),
            total: self.total,
            failed: self.failed,
        }
    }
}

/// The cursor is lazy: it asks for a page only when its buffer is empty, the
/// catalog has not ended and no fetch has failed.
pub proof fn lemma_fetch_is_lazy(cursor: CurseFileView)
    ensures
        cursor.pull() is Fetch ==> cursor.buffered.len() == 0 && !cursor.exhausted()
            && !cursor.failed,
{
}

/// The catalog is finite: every page that is supplied is counted, and a
/// cursor that can count no further is exhausted.
pub proof fn lemma_supply_counts(cursor: CurseFileView, page: PageView)
    ensures
        cursor.page < u32::MAX ==> cursor.supplied(Some(page)).page == cursor.page + 1,
        cursor.page == u32::MAX ==> cursor.supplied(Some(page)).exhausted(),
{
}

/// The records of `files` in reverse order.
fn reversed(files: Vec<ModFile>) -> (turned: Vec<ModFile>)
    ensures
        turned.deep_view() == files.deep_view().reverse(),
{
    let mut files = files;
    let ghost given = files.deep_view();
    let mut turned: Vec<ModFile> = Vec::new();
    while files.len() > 0
        invariant
            files.len() + turned.len() == given.len(),
            forall|k: int| 0 <= k < files.len() ==> (#[trigger] files[k])@ == given[k],
            forall|k: int|
                0 <= k < turned.len() ==> (#[trigger] turned[k])@ == given[given.len() - 1 - k],
        decreases files.len(),
    {
        let file = files.pop().unwrap();
        turned.push(file);
    }
    proof {
        assert(turned.deep_view() =~= given.reverse());
    }
    turned
}

impl CurseFile {
    /// Opens a cursor over the catalog of `project_id`.
    ///
    /// The API key goes with every page request, as a header; a key that cannot
    /// be a header value is refused here.
    pub fn of(project_id: &str, api_key: &str) -> (cursor: Result<CurseFile, SyncError>)
        ensures
            match cursor {
                Ok(cursor) => is_header_value(api_key@) && cursor@ == CurseFileView::fresh(
                    project_id@,
                    api_key@,
                ),
                Err(error) => !is_header_value(api_key@) && error == SyncError::Config(
                    ConfigError::InvalidCredential,
                ),
            },
    {
        if !header_value_accepts(api_key) {
            return Err(SyncError::Config(ConfigError::InvalidCredential));
        }
        let cursor = CurseFile {
            project_id: project_id.to_owned(),
            api_key: api_key.to_owned(),
            page: 0,
            per_page: PAGE_SIZE,
            files: Vec::new(),
            total: 0,
            failed: false,
        };
        proof {
            assert(cursor.files.deep_view().reverse() =~= Seq::<ModFileView>::empty());
        }
        Ok(cursor)
    }

    /// Pulls on the cursor.
    ///
    /// Gives the next buffered record if there is one. With an empty buffer it
    /// asks for the next page, unless the catalog has ended. After a failed
    /// fetch it gives `Failed`, and goes on doing so.
    pub fn try_next(&mut self) -> (pull: Pull)
        ensures
            pull@ == old(self)@.pull(),
            final(self)@ == old(self)@.pulled(),
    {
        if self.failed {
            return Pull::Failed;
        }
        let ghost before = self.files.deep_view();
        match self.files.pop() {
            Some(file) => {
                proof {
                    assert(self.files.deep_view() =~= before.drop_last());
                    assert(before.drop_last().reverse() =~= before.reverse().drop_first());
                    assert(before.reverse()[0] == file@);
                }
                Pull::Item(file)
            },
            None => {
                proof {
                    assert(before.reverse() =~= Seq::<ModFileView>::empty());
                }
                let page: u64 = self.page as u64;
                let per_page: u64 = self.per_page as u64;
                assert(page * per_page <= u64::MAX) by (nonlinear_arith)
                    requires
                        page <= u32::MAX,
                        per_page <= u32::MAX,
                ;
                if (self.page > 0 && page * per_page >= self.total) || self.page == u32::MAX {
                    Pull::End
                } else {
                    Pull::Fetch { page_index: self.page, page_size: self.per_page }
                }
            },
        }
    }

    /// Takes the page that the last pull asked for, or `None` where it could
    /// not be fetched or decoded.
    ///
    /// A page fills the buffer, sets the reported size of the catalog and moves
    /// the cursor on to the next page. A failure is final.
    pub fn supply(&mut self, page: Option<Page>)
        ensures
            final(self)@ == old(self)@.supplied(page.deep_view()),
    {
        match page {
            Some(page) => {
                if self.page < u32::MAX {
                    self.page = self.page + 1;
                }
                self.total = page.total_count;
                self.files = reversed(page.data);
                proof {
                    assert(self.files.deep_view().reverse() =~= page.data.deep_view());
                }
            },
            None => {
                self.files = Vec::new();
                self.failed = true;
                proof {
                    assert(self.files.deep_view().reverse() =~= Seq::<ModFileView>::empty());
                }
            },
        }
    }

    /// The project whose catalog this is.
    pub fn project_id(&self) -> (id: &str)
        ensures
            id@ == self@.project_id,
    {
        self.project_id.as_str()
    }

    /// The API key that goes with every page request.
    pub fn api_key(&self) -> (key: &str)
        ensures
            key@ == self@.api_key,
    {
        self.api_key.as_str()
    }
}

/// The address of one page of a project's catalog: newest files first, and
/// pre-releases not left out.
pub open spec fn page_url(project_id: Seq<char>, page_index: u32, page_size: u32) -> Seq<char> {
    "https://www.curseforge.com/api/v1/mods/"@ + project_id + "/files?pageIndex="@ + decimal(
        page_index as nat,
    ) + "&pageSize="@ + decimal(page_size as nat)
        + "&sort=dateCreated&sortDescending=true&removeAlphas=false"@
}

/// The address from which the file `file_id` of a project is downloaded.
pub open spec fn download_url(project_id: Seq<char>, file_id: u64) -> Seq<char> {
    "https://www.curseforge.com/api/v1/mods/"@ + project_id + "/files/"@ + decimal(file_id as nat)
        + "/download"@
}

/// Writes the address of one page of a project's catalog.
pub fn format_page_url(project_id: &str, page_index: u32, page_size: u32) -> (url: String)
    ensures
        url@ == page_url(project_id@, page_index, page_size),
{
    let mut url = String::from_str("https://www.curseforge.com/api/v1/mods/");
    url.append(project_id);
    url.append("/files?pageIndex=");
    url.append(to_decimal(page_index as u64).as_str());
    url.append("&pageSize=");
    url.append(to_decimal(page_size as u64).as_str());
    url.append("&sort=dateCreated&sortDescending=true&removeAlphas=false");
    url
}

/// Writes the address from which a file of a project is downloaded.
pub fn format_download_url(project_id: &str, file_id: u64) -> (url: String)
    ensures
        url@ == download_url(project_id@, file_id),
{
    let mut url = String::from_str("https://www.curseforge.com/api/v1/mods/");
    url.append(project_id);
    url.append("/files/");
    url.append(to_decimal(file_id).as_str());
    url.append("/download");
    url
}

/// The last path segment of `url` begins at `start`: a `/`, or nothing, stands
/// before it, and no `/` follows.
pub open spec fn is_last_segment(url: Seq<char>, start: int) -> bool {
    &&& 0 <= start <= url.len()
    &&& start == 0 || url[start - 1] == '/'
    &&& forall|k: int| start <= k < url.len() ==> url[k] != '/'
}

/// The project identifier that a project address names: its last path
/// segment, which is empty where the address ends with a `/`.
pub open spec fn project_id_of(url: Seq<char>) -> Seq<char> {
    url.skip(choose|start: int| is_last_segment(url, start))
}

/// An address has one last path segment.
pub proof fn lemma_last_segment_is(url: Seq<char>, start: int)
    requires
        is_last_segment(url, start),
    ensures
        project_id_of(url) == url.skip(start),
{
    let c = choose|c: int| is_last_segment(url, c);
    if c < start {
        assert(url[start - 1] != '/');
    } else if start < c {
        assert(url[c - 1] != '/');
    }
}

/// Reads the project identifier off a project address. The result borrows
/// from `url`.
pub fn extract_project_id(url: &str) -> (id: &str)
    ensures
        id@ == project_id_of(url@),
{
    let cs = chars_of(url);
    let mut start: usize = cs.len();
    while start > 0 && cs[start - 1] != '/'
        invariant
            start <= cs.len(),
            cs@ == url@,
            forall|k: int| start <= k < cs.len() ==> cs@[k] != '/',
        decreases start,
    {
        start -= 1;
    }
    proof {
        lemma_last_segment_is(url@, start as int);
    }
    let id = url.substring_char(start, cs.len());
    proof {
        assert(id@ =~= url@.skip(start as int));
    }
    id
}

} // verus!
