//! Sequencing the download of one book.
//!
//! A run fetches the package document, then every resource that it lists, in
//! order and one at a time, and ends by packing the archive. The run itself
//! touches neither network nor disk: it tells the caller what to fetch, takes
//! the bytes that the caller got for it, and says what comes next.

use crate::archive::{
    archive_entries, archive_file_name, assemble, entry_models, file_name, packed, ResourceItem,
    StorageFailure, DOCUMENT_NAME,
};
use crate::content::{extracted, parse_content, MalformedPage};
use crate::manifest::{
    item_models, parse_index, parsed, DownloadItem, ItemModel, MalformedManifest,
};
use crate::text::string_from_utf8;
use reqwest::Url;
use vstd::prelude::*;
use vstd::utf8::*;

verus! {

/// Why a run was given up.
#[derive(Debug, Clone, Copy, PartialEq, Eq, Structural)]
pub enum PipelineError {
    /// The package document was refused.
    Manifest(MalformedManifest),
    /// A page of the book was refused.
    Page(MalformedPage),
    /// A resource's location could not be resolved against the base.
    Location,
    /// The archive could not be packed.
    Storage(StorageFailure),
    /// Bytes were handed to a run that had asked for none.
    OutOfTurn,
}

/// What the caller is to do next.
#[derive(Debug, Clone, PartialEq, Eq)]
pub enum RunAction {
    /// Fetch this URL and hand its bytes to the run.
    Fetch(String),
    /// Write the archive to a file of this name. The run is over.
    Save { file_name: String, archive: Vec<u8> },
    /// Give the run up.
    Fail(PipelineError),
}

/// What a [`RunAction`] holds.
pub enum RunActionModel {
    Fetch(Seq<char>),
    Save { file_name: Seq<char>, archive: Seq<u8> },
    Fail(PipelineError),
}

impl View for RunAction {
    type V = RunActionModel;

    open spec fn view(&self) -> RunActionModel {
        match *self {
            RunAction::Fetch(url) => RunActionModel::Fetch(url@),
            RunAction::Save { file_name, archive } => RunActionModel::Save {
                file_name: file_name@,
                archive: archive@,
            },
            RunAction::Fail(e) => RunActionModel::Fail(e),
        }
    }
}

/// What a run is waiting for.
#[derive(Debug, Clone, Copy, PartialEq, Eq, Structural)]
pub enum Stage {
    /// The package document.
    Manifest,
    /// The next resource: the first that has not been collected yet.
    Resource,
    /// Nothing: the run is over.
    Finished,
}

/// A run part-way through.
#[derive(Debug, Clone, PartialEq, Eq)]
pub struct Pipeline {
    /// The URL below which the book lies.
    pub base: String,
    /// The fixed entries that go into the archive.
    pub fixed: Vec<ResourceItem>,
    pub stage: Stage,
    /// The package document as fetched.
    pub document: Vec<u8>,
    pub title: String,
    pub author: String,
    /// The resources that the package document lists.
    pub items: Vec<DownloadItem>,
    /// The resources collected so far: one for each of the first items.
    pub resources: Vec<ResourceItem>,
}

/// What a [`Pipeline`] holds.
pub struct PipelineModel {
    pub base: Seq<char>,
    pub fixed: Seq<(Seq<char>, Seq<u8>)>,
    pub stage: Stage,
    pub document: Seq<u8>,
    pub title: Seq<char>,
    pub author: Seq<char>,
    pub items: Seq<ItemModel>,
    pub resources: Seq<(Seq<char>, Seq<u8>)>,
}

impl View for Pipeline {
    type V = PipelineModel;

    open spec fn view(&self) -> PipelineModel {
        PipelineModel {
            base: self.base@,
            fixed: entry_models(self.fixed@),
            stage: self.stage,
            document: self.document@,
            title: self.title@,
            author: self.author@,
            items: item_models(self.items@),
            resources: entry_models(self.resources@),
        }
    }
}

/// What `Url::parse` and `Url::join` make of a base and a reference: the
/// resolved URL as text, or `None` where either refuses.
pub uninterp spec fn url_joined(base: Seq<char>, href: Seq<char>) -> Option<Seq<char>>;

/// The text that a result of [`join_url`] holds.
pub open spec fn location_of(r: Option<String>) -> Option<Seq<char>> {
    match r {
        Some(url) => Some(url@),
        None => None,
    }
}

/// `Url::parse` on the base, then `Url::join` with the reference, and the
/// result as text.
#[verifier::external_body]
pub(crate) fn join_url(base: &str, href: &str) -> (r: Option<String>)
    ensures
        location_of(r) == url_joined(base@, href@),
{
    Url::parse(base).ok()?.join(href).ok().map(|url| url.into())
}

/// Where the package document of the book below `base` lies.
pub open spec fn document_location(base: Seq<char>) -> Seq<char> {
    base + DOCUMENT_NAME@
}

/// A run that has just begun.
pub open spec fn begun(base: Seq<char>, fixed: Seq<(Seq<char>, Seq<u8>)>) -> PipelineModel {
    PipelineModel {
        base,
        fixed,
        stage: Stage::Manifest,
        document: Seq::empty(),
        title: Seq::empty(),
        author: Seq::empty(),
        items: Seq::empty(),
        resources: Seq::empty(),
    }
}

/// The run, over.
pub open spec fn ended(run: PipelineModel) -> PipelineModel {
    PipelineModel { stage: Stage::Finished, ..run }
}

/// What a resource's bytes become on their way into the archive: a page is
/// cut down, anything else is kept as fetched.
pub open spec fn archived_content(item: ItemModel, body: Seq<u8>) -> Result<Seq<u8>, MalformedPage> {
    if item.is_html {
        extracted(body)
    } else {
        Ok(body)
    }
}

/// What a run does once it holds the resources collected so far: it asks
/// for the next resource, at its location resolved against the base, or,
/// when none is left, packs and names the archive.
pub open spec fn proceed(run: PipelineModel) -> (PipelineModel, RunActionModel) {
    if run.resources.len() < run.items.len() {
        match url_joined(run.base, run.items[run.resources.len() as int].href) {
            Some(url) => (
                PipelineModel { stage: Stage::Resource, ..run },
                RunActionModel::Fetch(url),
            ),
            None => (ended(run), RunActionModel::Fail(PipelineError::Location)),
        }
    } else {
        match packed(archive_entries(run.document, run.fixed, run.resources)) {
            Ok(archive) => (
                ended(run),
                RunActionModel::Save { file_name: file_name(run.title, run.author), archive },
            ),
            Err(e) => (ended(run), RunActionModel::Fail(PipelineError::Storage(e))),
        }
    }
}

/// What a run does with the bytes that were fetched for it.
pub open spec fn after_fetch(run: PipelineModel, body: Seq<u8>) -> (PipelineModel, RunActionModel) {
    match run.stage {
        Stage::Manifest => if !valid_utf8(body) {
            (
                ended(run),
                RunActionModel::Fail(PipelineError::Manifest(MalformedManifest::NotUtf8)),
            )
        } else {
            match parsed(decode_utf8(body)) {
                Err(e) => (ended(run), RunActionModel::Fail(PipelineError::Manifest(e))),
                Ok(found) => proceed(
                    PipelineModel {
                        document: body,
                        title: found.title,
                        author: found.author,
                        items: found.items,
                        resources: Seq::empty(),
                        ..run
                    },
                ),
            }
        },
        Stage::Resource => if run.resources.len() < run.items.len() {
            let item = run.items[run.resources.len() as int];
            match archived_content(item, body) {
                Err(e) => (ended(run), RunActionModel::Fail(PipelineError::Page(e))),
                Ok(content) => proceed(
                    PipelineModel { resources: run.resources.push((item.href, content)), ..run },
                ),
            }
        } else {
            (ended(run), RunActionModel::Fail(PipelineError::OutOfTurn))
        },
        Stage::Finished => (ended(run), RunActionModel::Fail(PipelineError::OutOfTurn)),
    }
}

impl Pipeline {
    /// Begins the run for the book below `base`: the package document is to
    /// be fetched first.
    pub fn start(base: &str, fixed: Vec<ResourceItem>) -> (r: (Pipeline, RunAction))
        ensures
            r.0@ == begun(base@, entry_models(fixed@)),
            r.1@ == RunActionModel::Fetch(document_location(base@)),
    {
        let mut location = base.to_owned();
        location.append(DOCUMENT_NAME);
        let run = Pipeline {
            base: base.to_owned(),
            fixed,
            stage: Stage::Manifest,
            document: Vec::new(),
            title: String::new(),
            author: String::new(),
            items: Vec::new(),
            resources: Vec::new(),
        };
        assert(run@.items =~= Seq::empty());
        assert(run@.resources =~= Seq::empty());
        (run, RunAction::Fetch(location))
    }

    /// Ends the run with a failure.
    fn fail(self, error: PipelineError) -> (r: (Pipeline, RunAction))
        ensures
            r.0@ == ended(self@),
            r.1@ == RunActionModel::Fail(error),
    {
        let mut run = self;
        run.stage = Stage::Finished;
        (run, RunAction::Fail(error))
    }

    /// Asks for the next resource, or packs the archive when none is left.
    fn advance(self) -> (r: (Pipeline, RunAction))
        ensures
            r.0@ == proceed(self@).0,
            r.1@ == proceed(self@).1,
    {
        let mut run = self;
        if run.resources.len() < run.items.len() {
            let item = &run.items[run.resources.len()];
            match join_url(run.base.as_str(), item.href.as_str()) {
                Some(url) => {
                    run.stage = Stage::Resource;
                    (run, RunAction::Fetch(url))
                },
                None => run.fail(PipelineError::Location),
            }
        } else {
            let name = archive_file_name(run.title.as_str(), run.author.as_str());
            match assemble(run.document.as_slice(), &run.fixed, &run.resources) {
                Ok(archive) => {
                    run.stage = Stage::Finished;
                    (run, RunAction::Save { file_name: name, archive })
                },
                Err(e) => run.fail(PipelineError::Storage(e)),
            }
        }
    }

    /// Takes the bytes that were fetched for the run's last request and says
    /// what comes next.
    ///
    /// The package document is scanned for title, author and resources. A
    /// resource is collected under its location as the package document gives
    /// it, a page cut down first. After the last resource the archive is
    /// packed and named. The first refusal ends the run.
    pub fn fetched(self, body: Vec<u8>) -> (r: (Pipeline, RunAction))
        ensures
            r.0@ == after_fetch(self@, body@).0,
            r.1@ == after_fetch(self@, body@).1,
    {
        let mut run = self;
        match run.stage {
            Stage::Manifest => {
                let document = body.clone();
                let text = match string_from_utf8(body) {
                    Some(text) => text,
                    None => {
                        return run.fail(
                            PipelineError::Manifest(MalformedManifest::NotUtf8),
                        );
                    },
                };
                proof {
                    encode_utf8_decode_utf8(text@);
                }
                let manifest = match parse_index(text.as_str()) {
                    Ok(manifest) => manifest,
                    Err(e) => {
                        return run.fail(PipelineError::Manifest(e));
                    },
                };
                run.document = document;
                run.title = manifest.metadata.title;
                run.author = manifest.metadata.author;
                run.items = manifest.items;
                run.resources = Vec::new();
                assert(entry_models(run.resources@) =~= Seq::empty());
                run.advance()
            },
            Stage::Resource => {
                if run.resources.len() < run.items.len() {
                    let item = &run.items[run.resources.len()];
                    let path = item.href.clone();
                    let content = if item.is_html {
                        match parse_content(body) {
                            Ok(page) => page,
                            Err(e) => {
                                return run.fail(PipelineError::Page(e));
                            },
                        }
                    } else {
                        body
                    };
                    let entry = ResourceItem { path, content };
                    run.resources.push(entry);
                    assert(entry_models(run.resources@) =~= entry_models(self.resources@).push(
                        entry@,
                    ));
                    run.advance()
                } else {
                    run.fail(PipelineError::OutOfTurn)
                }
            },
            Stage::Finished => run.fail(PipelineError::OutOfTurn),
        }
    }
}

} // verus!
