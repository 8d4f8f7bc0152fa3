//! One refresh of a catalog: where the sources are, and how the bytes of a
//! source become the records of a collection.

use vstd::prelude::*;
use vstd::utf8::*;
use vstd::string::*;
use crate::catalog::{
    distinct_keys, lemma_merge, lemma_upsert, merge, upsert, well_keyed, Entries, PackageMap,
};
use crate::exclusion::ExclusionSet;
use crate::frame::{
    feed_all, feed_spec, fresh, joined, lemma_chunking_is_irrelevant, records, texts, Framer,
    FramerView,
};
use crate::package::{listing_of_bytes, PackageListing};
use crate::store::{written, FetchOutcome, WriteMode};
use crate::text::str_eq;

verus! {

/// The address of the package list of a community.
pub open spec fn primary_url_of(slug: Seq<char>) -> Seq<char> {
    "https://thunderstore.io/c/"@ + slug + "/api/v1/package/"@
}

/// The one community that has a second source.
pub open spec fn has_extra_source(slug: Seq<char>) -> bool {
    slug == "lethal-company"@
}

/// The addresses to fetch for a community, in the order in which their
/// records are merged.
pub open spec fn source_urls_of(slug: Seq<char>) -> Seq<Seq<char>> {
    if has_extra_source(slug) {
        seq![primary_url_of(slug), "https://cdn.potatoepet.de/c/lethal-company/api/v1/package/"@]
    } else {
        seq![primary_url_of(slug)]
    }
}

/// The address of the package list of the community with the given slug.
pub fn primary_url(slug: &str) -> (url: String)
    ensures
        url@ == primary_url_of(slug@),
{
    "https://thunderstore.io/c/".to_owned().concat(slug).concat("/api/v1/package/")
}

/// The addresses to fetch for a community: the primary source, and behind it
/// the second source of the one community that has one.
pub fn source_urls(slug: &str) -> (urls: Vec<String>)
    ensures
        urls@.map_values(|url: String| url@) == source_urls_of(slug@),
{
    let mut urls: Vec<String> = Vec::new();
    urls.push(primary_url(slug));
    if str_eq(slug, "lethal-company") {
        urls.push("https://cdn.potatoepet.de/c/lethal-company/api/v1/package/".to_owned());
    }
    urls
}

/// No record of the collection has a name that is on the list.
pub open spec fn none_excluded(entries: Entries, excluded: Seq<Seq<char>>) -> bool {
    forall|k: int| 0 <= k < entries.len() ==> !excluded.contains((#[trigger] entries[k]).1.full_name)
}

/// What one record text does to a collection. A text that does not read as a
/// record is passed over, and so is a record whose name is on the exclusion
/// list; any other record is inserted under its identifier.
pub open spec fn accept(entries: Entries, record: Seq<u8>, excluded: Seq<Seq<char>>) -> Entries {
    match listing_of_bytes(record) {
        Some(listing) => if excluded.contains(listing.full_name) {
            entries
        } else {
            upsert(entries, listing.uuid, listing)
        },
        None => entries,
    }
}

/// What a run of record texts does to a collection, one after the other.
pub open spec fn accept_all(
    entries: Entries,
    records: Seq<Seq<u8>>,
    excluded: Seq<Seq<char>>,
) -> Entries
    decreases records.len(),
{
    if records.len() == 0 {
        entries
    } else {
        accept(accept_all(entries, records.drop_last(), excluded), records.last(), excluded)
    }
}

/// Accepting two runs one after the other is accepting them as one run.
pub proof fn lemma_accept_all_append(
    entries: Entries,
    first: Seq<Seq<u8>>,
    second: Seq<Seq<u8>>,
    excluded: Seq<Seq<char>>,
)
    ensures
        accept_all(accept_all(entries, first, excluded), second, excluded) == accept_all(
            entries,
            first + second,
            excluded,
        ),
    decreases second.len(),
{
    if second.len() > 0 {
        lemma_accept_all_append(entries, first, second.drop_last(), excluded);
        assert((first + second).drop_last() == first + second.drop_last());
    }
}

/// Acceptance keeps a collection well keyed and never lets an excluded name
/// in.
pub proof fn lemma_accept_all(entries: Entries, records: Seq<Seq<u8>>, excluded: Seq<Seq<char>>)
    requires
        distinct_keys(entries),
    ensures
        distinct_keys(accept_all(entries, records, excluded)),
        none_excluded(entries, excluded) ==> none_excluded(
            accept_all(entries, records, excluded),
            excluded,
        ),
    decreases records.len(),
{
    if records.len() > 0 {
        let before = accept_all(entries, records.drop_last(), excluded);
        lemma_accept_all(entries, records.drop_last(), excluded);
        match listing_of_bytes(records.last()) {
            Some(listing) => {
                lemma_upsert(before, listing.uuid, listing);
            },
            None => {},
        }
    }
}

/// Puts the records that a run of texts describes into a collection, in the
/// order of the run. Texts that do not read as a record and records whose
/// name is excluded are passed over.
pub fn accept_records(packages: &mut PackageMap, records: &Vec<Vec<u8>>, exclusions: &ExclusionSet)
    ensures
        final(packages)@ == accept_all(old(packages)@, texts(records@), exclusions@),
        well_keyed(final(packages)@),
{
    let ghost start = packages@;
    let ghost all = texts(records@);
    let _ = packages.len();
    let mut i: usize = 0;
    while i < records.len()
        invariant
            i <= records@.len(),
            all == texts(records@),
            packages@ == accept_all(start, all.subrange(0, i as int), exclusions@),
            well_keyed(packages@),
        decreases records@.len() - i,
    {
        proof {
            assert(all.subrange(0, i + 1).drop_last() == all.subrange(0, i as int));
        }
        match PackageListing::parse_bytes(records[i].as_slice()) {
            Some(listing) => {
                if !exclusions.is_excluded(listing.full_name()) {
                    packages.insert(listing);
                }
            },
            None => {},
        }
        i += 1;
    }
    assert(all.subrange(0, records@.len() as int) == all);
}

/// What the reader of one source holds between two chunks.
pub struct SourceReaderView {
    /// The state of the framing.
    pub framer: FramerView,
    /// The records accepted so far, in order.
    pub packages: Entries,
}

/// A reader that has seen nothing.
pub open spec fn fresh_reader() -> SourceReaderView {
    SourceReaderView { framer: fresh(), packages: Seq::empty() }
}

/// What a chunk does to a reader: it is framed, and the records that it
/// completes are accepted in their order.
pub open spec fn read_spec(
    state: SourceReaderView,
    chunk: Seq<u8>,
    excluded: Seq<Seq<char>>,
) -> SourceReaderView {
    let fed = feed_spec(state.framer, chunk);
    SourceReaderView { framer: fed.0, packages: accept_all(state.packages, fed.1, excluded) }
}

/// What a run of chunks does to a reader.
pub open spec fn read_all(
    state: SourceReaderView,
    chunks: Seq<Seq<u8>>,
    excluded: Seq<Seq<char>>,
) -> SourceReaderView
    decreases chunks.len(),
{
    if chunks.len() == 0 {
        state
    } else {
        read_spec(read_all(state, chunks.drop_last(), excluded), chunks.last(), excluded)
    }
}

/// A fresh reader accepts the records that the framer hands out, in their
/// order.
pub proof fn lemma_read_all(chunks: Seq<Seq<u8>>, excluded: Seq<Seq<char>>)
    ensures
        read_all(fresh_reader(), chunks, excluded) == (SourceReaderView {
            framer: feed_all(fresh(), chunks).0,
            packages: accept_all(Seq::empty(), feed_all(fresh(), chunks).1, excluded),
        }),
    decreases chunks.len(),
{
    if chunks.len() > 0 {
        lemma_read_all(chunks.drop_last(), excluded);
        let before = feed_all(fresh(), chunks.drop_last());
        let last = feed_spec(before.0, chunks.last());
        lemma_accept_all_append(Seq::empty(), before.1, last.1, excluded);
    }
}

/// Streaming correctness. However the valid UTF-8 of a source is cut into
/// chunks, a fresh reader ends with the collection that the records of the
/// whole text give, accepted in their order: the same as after one chunk
/// that holds everything.
pub proof fn lemma_streaming_is_exact(chunks: Seq<Seq<u8>>, excluded: Seq<Seq<char>>)
    requires
        valid_utf8(joined(chunks)),
    ensures
        read_all(fresh_reader(), chunks, excluded) == read_spec(
            fresh_reader(),
            joined(chunks),
            excluded,
        ),
        read_all(fresh_reader(), chunks, excluded).packages == accept_all(
            Seq::empty(),
            records(joined(chunks)),
            excluded,
        ),
{
    lemma_read_all(chunks, excluded);
    lemma_chunking_is_irrelevant(chunks);
}

/// Exclusion. Whatever the chunks of a source hold and in whatever order its
/// records come, no record with an excluded name is in the collection read
/// from it.
pub proof fn lemma_reader_excludes(chunks: Seq<Seq<u8>>, excluded: Seq<Seq<char>>)
    ensures
        distinct_keys(read_all(fresh_reader(), chunks, excluded).packages),
        none_excluded(read_all(fresh_reader(), chunks, excluded).packages, excluded),
{
    lemma_read_all(chunks, excluded);
    lemma_accept_all(Seq::empty(), feed_all(fresh(), chunks).1, excluded);
}

/// Exclusion survives a merge: where neither collection holds an excluded
/// name, the merged collection holds none.
pub proof fn lemma_merge_excludes(base: Entries, extra: Entries, excluded: Seq<Seq<char>>)
    requires
        distinct_keys(base),
        distinct_keys(extra),
        none_excluded(base, excluded),
        none_excluded(extra, excluded),
    ensures
        none_excluded(merge(base, extra), excluded),
{
    lemma_merge(base, extra);
}

/// Reads one source: takes the bytes of a response as they arrive and
/// collects the records that they hold.
pub struct SourceReader {
    framer: Framer,
    packages: PackageMap,
}

impl View for SourceReader {
    type V = SourceReaderView;

    closed spec fn view(&self) -> SourceReaderView {
        SourceReaderView { framer: self.framer@, packages: self.packages@ }
    }
}

impl SourceReader {
    /// A reader that has seen nothing.
    pub fn new() -> (reader: SourceReader)
        ensures
            reader@ == fresh_reader(),
    {
        SourceReader { framer: Framer::new(), packages: PackageMap::new() }
    }

    /// Takes the next chunk of the response.
    pub fn feed(&mut self, chunk: &[u8], exclusions: &ExclusionSet)
        ensures
            final(self)@ == read_spec(old(self)@, chunk@, exclusions@),
    {
        let produced = self.framer.feed(chunk);
        accept_records(&mut self.packages, &produced, exclusions);
    }

    /// The number of bytes that the reader holds back.
    pub fn pending_len(&self) -> (len: usize)
        ensures
            len == self@.framer.pending.len(),
    {
        self.framer.pending_len()
    }

    /// The number of bytes of unfinished text that the reader holds.
    pub fn text_len(&self) -> (len: usize)
        ensures
            len == self@.framer.text.len(),
    {
        self.framer.text_len()
    }

    /// The number of records collected so far.
    pub fn len(&self) -> (len: usize)
        ensures
            len == self@.packages.len(),
    {
        self.packages.len()
    }

    /// Ends the reading. What is held of an unfinished record is dropped: no
    /// record can come of it.
    pub fn finish(self) -> (packages: PackageMap)
        ensures
            packages@ == self@.packages,
    {
        self.packages
    }
}

/// The collection that a fetch of several sources gives: each source is read
/// by a reader of its own, and the collections are merged in the order of the
/// sources, so that of two records under one identifier the one of the later
/// source stays.
pub open spec fn fetched_from(sources: Seq<Seq<Seq<u8>>>, excluded: Seq<Seq<char>>) -> Entries
    decreases sources.len(),
{
    if sources.len() == 0 {
        Seq::empty()
    } else {
        merge(
            fetched_from(sources.drop_last(), excluded),
            read_all(fresh_reader(), sources.last(), excluded).packages,
        )
    }
}

/// Exclusion, for a whole fetch. Whatever the sources hold, in whatever order
/// they are read and however their bytes are cut, the fetched collection
/// holds no record with an excluded name.
pub proof fn lemma_fetch_excludes(sources: Seq<Seq<Seq<u8>>>, excluded: Seq<Seq<char>>)
    ensures
        distinct_keys(fetched_from(sources, excluded)),
        none_excluded(fetched_from(sources, excluded), excluded),
    decreases sources.len(),
{
    if sources.len() > 0 {
        lemma_fetch_excludes(sources.drop_last(), excluded);
        lemma_reader_excludes(sources.last(), excluded);
        let base = fetched_from(sources.drop_last(), excluded);
        let extra = read_all(fresh_reader(), sources.last(), excluded).packages;
        lemma_merge(base, extra);
        lemma_merge_excludes(base, extra, excluded);
    }
}

/// Exclusion, for the catalog. Writing a fetched collection without excluded
/// names to a store leaves the store without excluded names: always when it
/// replaces what the store held, and when it is merged if the store held
/// none before.
pub proof fn lemma_written_excludes(
    entries: Entries,
    fetched: Entries,
    mode: WriteMode,
    excluded: Seq<Seq<char>>,
)
    requires
        distinct_keys(entries),
        distinct_keys(fetched),
        none_excluded(fetched, excluded),
        mode == WriteMode::Merge ==> none_excluded(entries, excluded),
    ensures
        none_excluded(written(entries, fetched, mode), excluded),
{
    if mode == WriteMode::Merge {
        lemma_merge_excludes(entries, fetched, excluded);
    }
}

/// A fetch under way, as contracts see it.
pub struct FetchSessionView {
    /// The addresses of all sources, in the order in which they are read.
    pub urls: Seq<Seq<char>>,
    /// How many sources have been read to their end.
    pub done: int,
    /// The reader of the source that is being read.
    pub reader: SourceReaderView,
    /// The merged records of the sources that have been read.
    pub fetched: Entries,
}

/// A session as it begins: all sources of the community ahead, nothing read.
pub open spec fn new_session(slug: Seq<char>) -> FetchSessionView {
    FetchSessionView {
        urls: source_urls_of(slug),
        done: 0,
        reader: fresh_reader(),
        fetched: Seq::empty(),
    }
}

/// A session after the end of the source that was being read. Its records
/// are merged into those of the sources before it, what the reader held of
/// an unfinished record is dropped, and the next source is up. With no source
/// being read, nothing changes.
pub open spec fn source_ended(session: FetchSessionView) -> FetchSessionView {
    if 0 <= session.done < session.urls.len() {
        FetchSessionView {
            urls: session.urls,
            done: session.done + 1,
            reader: fresh_reader(),
            fetched: merge(session.fetched, session.reader.packages),
        }
    } else {
        session
    }
}

/// One fetch of all sources of a community. The session says which address
/// to request next; the caller requests it, hands in the chunks of the
/// response and says when the response has ended.
pub struct FetchSession {
    urls: Vec<String>,
    done: usize,
    reader: SourceReader,
    fetched: PackageMap,
}

impl View for FetchSession {
    type V = FetchSessionView;

    closed spec fn view(&self) -> FetchSessionView {
        FetchSessionView {
            urls: self.urls@.map_values(|url: String| url@),
            done: self.done as int,
            reader: self.reader@,
            fetched: self.fetched@,
        }
    }
}

impl FetchSession {
    /// Begins a fetch for the community with the given slug.
    pub fn new(slug: &str) -> (session: FetchSession)
        ensures
            session@ == new_session(slug@),
    {
        FetchSession {
            urls: source_urls(slug),
            done: 0,
            reader: SourceReader::new(),
            fetched: PackageMap::new(),
        }
    }

    /// The address to request now, or `None` when every source has been read.
    pub fn next_url(&self) -> (url: Option<&str>)
        ensures
            match url {
                Some(url) => self@.done < self@.urls.len() && url@ == self@.urls[self@.done],
                None => self@.done >= self@.urls.len(),
            },
    {
        if self.done < self.urls.len() {
            Some(self.urls[self.done].as_str())
        } else {
            None
        }
    }

    /// Takes the next chunk of the response that is being read.
    pub fn feed(&mut self, chunk: &[u8], exclusions: &ExclusionSet)
        ensures
            final(self)@ == (FetchSessionView {
                reader: read_spec(old(self)@.reader, chunk@, exclusions@),
                ..old(self)@
            }),
    {
        self.reader.feed(chunk, exclusions);
    }

    /// Takes the end of the response that is being read.
    pub fn end_source(&mut self)
        ensures
            final(self)@ == source_ended(old(self)@),
    {
        if self.done < self.urls.len() {
            let mut reader = SourceReader::new();
            core::mem::swap(&mut self.reader, &mut reader);
            self.fetched.extend(reader.finish());
            self.done = self.done + 1;
        }
    }

    /// Ends the session. The fetch has succeeded if every source was read to
    /// its end; a fetch that is given up on the way has failed, and what it
    /// has read is dropped.
    pub fn finish(self) -> (outcome: FetchOutcome)
        ensures
            match outcome {
                FetchOutcome::Fetched(fetched) => self@.done >= self@.urls.len() && fetched@
                    == self@.fetched,
                FetchOutcome::Failed => self@.done < self@.urls.len(),
            },
    {
        if self.done >= self.urls.len() {
            FetchOutcome::Fetched(self.fetched)
        } else {
            FetchOutcome::Failed
        }
    }
}

} // verus!
