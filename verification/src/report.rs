//! What happened to the records of one period: how many were appended, and
//! which messages failed or overflowed their budget, how often and at which
//! severity.

use fxhash::FxHashMap;
use vstd::prelude::*;
use crate::params::{DumpParams, Level};
use crate::record::DumpRecord;
use crate::table::{is_listing, lemma_listed_later, lemma_listing_is_listed, lemma_merged_empty,
    lemma_merged_insert, listed, merged, Tally};

verus! {

/// The hasher of `fxhash`, which the tables of a report are built on.
/// Nothing is claimed of its values.
#[verifier::external_type_specification]
#[verifier::external_body]
pub struct ExFxHasher(fxhash::FxHasher);

/// `std`'s builder of default hashers, the third parameter of an
/// `FxHashMap`. Nothing is claimed of its values.
#[verifier::external_type_specification]
#[verifier::external_body]
#[verifier::reject_recursive_types(H)]
pub struct ExBuildHasherDefault<H>(core::hash::BuildHasherDefault<H>);

/// The tally of a message that could not be encoded.
#[derive(Debug)]
pub struct FailedDumpInfo {
    /// The severity given with the latest failure.
    pub level: Level,
    /// What the encoder said of the latest failure.
    pub error: String,
    /// How many records failed.
    pub count: usize,
}

/// The mathematical content of a [`FailedDumpInfo`].
pub struct FailedView {
    pub level: Level,
    pub error: Seq<char>,
    pub count: nat,
}

impl View for FailedDumpInfo {
    type V = FailedView;

    open spec fn view(&self) -> FailedView {
        FailedView { level: self.level, error: self.error@, count: self.count as nat }
    }
}

impl Tally for FailedView {
    /// Severity and detail are those that came later; the counts add up.
    open spec fn combined(self, later: FailedView) -> FailedView {
        FailedView { level: later.level, error: later.error, count: self.count + later.count }
    }
}

/// The tally of a message that overflowed its budget.
#[derive(Clone, Copy, Debug, PartialEq, Eq, Structural)]
pub struct OverflowDumpInfo {
    /// The severity given with the latest overflow.
    pub level: Level,
    /// How many records overflowed.
    pub count: usize,
}

/// The mathematical content of an [`OverflowDumpInfo`].
pub struct OverflowView {
    pub level: Level,
    pub count: nat,
}

impl View for OverflowDumpInfo {
    type V = OverflowView;

    open spec fn view(&self) -> OverflowView {
        OverflowView { level: self.level, count: self.count as nat }
    }
}

impl Tally for OverflowView {
    /// The severity is the one that came later; the counts add up.
    open spec fn combined(self, later: OverflowView) -> OverflowView {
        OverflowView { level: later.level, count: self.count + later.count }
    }
}

/// Failures as a mathematical map, from protocol and message name to tally.
pub type FailedMap = Map<(Seq<char>, Seq<char>), FailedView>;

/// Overflows as a mathematical map, from protocol, message name and
/// truncation flag to tally.
pub type OverflowMap = Map<(Seq<char>, Seq<char>, bool), OverflowView>;

/// What `table` holds: the tally of each protocol and message name in it.
pub uninterp spec fn failed_entries(
    table: FxHashMap<(String, String), FailedDumpInfo>,
) -> FailedMap;

/// What `table` holds: the tally of each protocol, message name and
/// truncation flag in it.
pub uninterp spec fn overflow_entries(
    table: FxHashMap<(String, String, bool), OverflowDumpInfo>,
) -> OverflowMap;

/// The entries handed out by a table of failures, as mathematical pairs.
pub open spec fn failed_items(items: Seq<((String, String), FailedDumpInfo)>) -> Seq<
    ((Seq<char>, Seq<char>), FailedView),
> {
    items.map_values(
        |item: ((String, String), FailedDumpInfo)|
            {
                let (key, info) = item;
                ((key.0@, key.1@), info@)
            },
    )
}

/// The entries handed out by a table of overflows, as mathematical pairs.
pub open spec fn overflow_items(items: Seq<((String, String, bool), OverflowDumpInfo)>) -> Seq<
    ((Seq<char>, Seq<char>, bool), OverflowView),
> {
    items.map_values(
        |item: ((String, String, bool), OverflowDumpInfo)|
            {
                let (key, info) = item;
                ((key.0@, key.1@, key.2), info@)
            },
    )
}

/// An empty table of failures, by `FxHashMap::default`.
///
/// Not proved: that the new map holds nothing.
#[verifier::external_body]
fn failed_new() -> (table: FxHashMap<(String, String), FailedDumpInfo>)
    ensures
        failed_entries(table) == FailedMap::empty(),
{
    FxHashMap::default()
}

/// Looks a message up in a table of failures, by `HashMap::get`.
///
/// Not proved: that the call finds the tally of the key if the table holds
/// one, and nothing otherwise.
#[verifier::external_body]
fn failed_get<'a>(
    table: &'a FxHashMap<(String, String), FailedDumpInfo>,
    protocol: &str,
    name: &str,
) -> (found: Option<&'a FailedDumpInfo>)
    ensures
        found is Some <==> failed_entries(*table).contains_key((protocol@, name@)),
        found matches Some(info) ==> failed_entries(*table)[(protocol@, name@)] == info@,
{
    table.get(&(protocol.to_owned(), name.to_owned()))
}

/// Puts a tally into a table of failures, by `HashMap::insert`.
///
/// Not proved: that afterwards the key has the new tally, in place of the
/// one it had if it had one, and that nothing else has changed.
#[verifier::external_body]
fn failed_insert(
    table: &mut FxHashMap<(String, String), FailedDumpInfo>,
    protocol: String,
    name: String,
    info: FailedDumpInfo,
)
    ensures
        failed_entries(*final(table)) == failed_entries(*old(table)).insert(
            (protocol@, name@),
            info@,
        ),
{
    table.insert((protocol, name), info);
}

/// Hands out the entries of a table of failures, by `HashMap::into_iter`.
///
/// Not proved: that the entries come out once each, in some order.
#[verifier::external_body]
fn failed_drain(table: FxHashMap<(String, String), FailedDumpInfo>) -> (items: Vec<
    ((String, String), FailedDumpInfo),
>)
    ensures
        is_listing(failed_items(items@), failed_entries(table)),
{
    table.into_iter().collect()
}

/// An empty table of overflows, by `FxHashMap::default`.
///
/// Not proved: that the new map holds nothing.
#[verifier::external_body]
fn overflow_new() -> (table: FxHashMap<(String, String, bool), OverflowDumpInfo>)
    ensures
        overflow_entries(table) == OverflowMap::empty(),
{
    FxHashMap::default()
}

/// Looks a message up in a table of overflows, by `HashMap::get`.
///
/// Not proved: that the call finds the tally of the key if the table holds
/// one, and nothing otherwise.
#[verifier::external_body]
fn overflow_get(
    table: &FxHashMap<(String, String, bool), OverflowDumpInfo>,
    protocol: &str,
    name: &str,
    truncated: bool,
) -> (found: Option<OverflowDumpInfo>)
    ensures
        found is Some <==> overflow_entries(*table).contains_key((protocol@, name@, truncated)),
        found matches Some(info) ==> overflow_entries(*table)[(protocol@, name@, truncated)]
            == info@,
{
    table.get(&(protocol.to_owned(), name.to_owned(), truncated)).copied()
}

/// Puts a tally into a table of overflows, by `HashMap::insert`.
///
/// Not proved: that afterwards the key has the new tally, in place of the
/// one it had if it had one, and that nothing else has changed.
#[verifier::external_body]
fn overflow_insert(
    table: &mut FxHashMap<(String, String, bool), OverflowDumpInfo>,
    protocol: String,
    name: String,
    truncated: bool,
    info: OverflowDumpInfo,
)
    ensures
        overflow_entries(*final(table)) == overflow_entries(*old(table)).insert(
            (protocol@, name@, truncated),
            info@,
        ),
{
    table.insert((protocol, name, truncated), info);
}

/// Hands out the entries of a table of overflows, by `HashMap::into_iter`.
///
/// Not proved: that the entries come out once each, in some order.
#[verifier::external_body]
fn overflow_drain(table: FxHashMap<(String, String, bool), OverflowDumpInfo>) -> (items: Vec<
    ((String, String, bool), OverflowDumpInfo),
>)
    ensures
        is_listing(overflow_items(items@), overflow_entries(table)),
{
    table.into_iter().collect()
}

/// What happened to the records of one period.
#[derive(Debug)]
pub struct Report {
    /// How many records were appended.
    pub appended: usize,
    /// The failures, by protocol and message name.
    pub failed: FxHashMap<(String, String), FailedDumpInfo>,
    /// The overflows, by protocol, message name and whether the record was
    /// kept in truncated form.
    pub overflow: FxHashMap<(String, String, bool), OverflowDumpInfo>,
}

/// The mathematical content of a [`Report`].
#[verifier::ext_equal]
pub struct ReportView {
    pub appended: nat,
    pub failed: FailedMap,
    pub overflow: OverflowMap,
}

impl View for Report {
    type V = ReportView;

    open spec fn view(&self) -> ReportView {
        ReportView {
            appended: self.appended as nat,
            failed: failed_entries(self.failed),
            overflow: overflow_entries(self.overflow),
        }
    }
}

impl ReportView {
    /// The report of a period in which nothing happened.
    pub open spec fn empty() -> ReportView {
        ReportView { appended: 0, failed: Map::empty(), overflow: Map::empty() }
    }

    /// How many records of this message failed.
    pub open spec fn failed_count(self, protocol: Seq<char>, name: Seq<char>) -> nat {
        if self.failed.contains_key((protocol, name)) {
            self.failed[(protocol, name)].count
        } else {
            0
        }
    }

    /// How many records of this message overflowed and were dropped
    /// (`truncated` is false) or kept in truncated form (it is true).
    pub open spec fn overflow_count(self, protocol: Seq<char>, name: Seq<char>, truncated: bool)
        -> nat {
        if self.overflow.contains_key((protocol, name, truncated)) {
            self.overflow[(protocol, name, truncated)].count
        } else {
            0
        }
    }

    /// Whether one more event of any class can be counted for this message.
    pub open spec fn has_room(self, protocol: Seq<char>, name: Seq<char>) -> bool {
        &&& self.appended < usize::MAX
        &&& self.failed_count(protocol, name) < usize::MAX
        &&& self.overflow_count(protocol, name, false) < usize::MAX
        &&& self.overflow_count(protocol, name, true) < usize::MAX
    }

    /// This report with one more record appended.
    pub open spec fn with_appended(self) -> ReportView {
        ReportView { appended: self.appended + 1, ..self }
    }

    /// This report after a failure of the message was counted at `level`.
    /// Without a level nothing is counted.
    pub open spec fn with_failed(
        self,
        protocol: Seq<char>,
        name: Seq<char>,
        level: Option<Level>,
        error: Seq<char>,
    ) -> ReportView {
        match level {
            None => self,
            Some(level) => ReportView {
                failed: self.failed.insert(
                    (protocol, name),
                    FailedView { level, error, count: self.failed_count(protocol, name) + 1 },
                ),
                ..self
            },
        }
    }

    /// This report after an overflow of the message was counted at `level`.
    /// Without a level nothing is counted.
    pub open spec fn with_overflow(
        self,
        protocol: Seq<char>,
        name: Seq<char>,
        truncated: bool,
        level: Option<Level>,
    ) -> ReportView {
        match level {
            None => self,
            Some(level) => ReportView {
                overflow: self.overflow.insert(
                    (protocol, name, truncated),
                    OverflowView {
                        level,
                        count: self.overflow_count(protocol, name, truncated) + 1,
                    },
                ),
                ..self
            },
        }
    }

    /// Whether `other` can be merged into this report without a count
    /// leaving the range of `usize`.
    pub open spec fn can_merge(self, other: ReportView) -> bool {
        &&& self.appended + other.appended <= usize::MAX
        &&& forall|k: (Seq<char>, Seq<char>)|
            #![trigger self.failed.contains_key(k)]
            #![trigger other.failed.contains_key(k)]
            self.failed.contains_key(k) && other.failed.contains_key(k) ==> self.failed[k].count
                + other.failed[k].count <= usize::MAX
        &&& forall|k: (Seq<char>, Seq<char>, bool)|
            #![trigger self.overflow.contains_key(k)]
            #![trigger other.overflow.contains_key(k)]
            self.overflow.contains_key(k) && other.overflow.contains_key(k)
                ==> self.overflow[k].count + other.overflow[k].count <= usize::MAX
    }

    /// This report with `other` merged into it.
    pub open spec fn merged(self, other: ReportView) -> ReportView {
        ReportView {
            appended: self.appended + other.appended,
            failed: merged(self.failed, other.failed),
            overflow: merged(self.overflow, other.overflow),
        }
    }
}

impl Default for Report {
    /// The report of a period in which nothing has happened yet.
    fn default() -> (report: Self)
        ensures
            report@ == ReportView::empty(),
    {
        Report { appended: 0, failed: failed_new(), overflow: overflow_new() }
    }
}

/// Merges the tallies of `src` into `dest`: a tally of a message that `dest`
/// does not know is taken over, any other is added to the one that `dest`
/// has.
pub fn merge_failed(
    dest: &mut FxHashMap<(String, String), FailedDumpInfo>,
    src: FxHashMap<(String, String), FailedDumpInfo>,
)
    requires
        forall|k: (Seq<char>, Seq<char>)|
            #![trigger failed_entries(*old(dest)).contains_key(k)]
            #![trigger failed_entries(src).contains_key(k)]
            failed_entries(*old(dest)).contains_key(k) && failed_entries(src).contains_key(k)
                ==> failed_entries(*old(dest))[k].count + failed_entries(src)[k].count
                <= usize::MAX,
    ensures
        failed_entries(*final(dest)) == merged(failed_entries(*old(dest)), failed_entries(src)),
{
    let ghost ours = failed_entries(*dest);
    let ghost theirs = failed_entries(src);
    let mut items = failed_drain(src);
    let ghost all = failed_items(items@);
    proof {
        assert(all.skip(all.len() as int) =~= Seq::empty());
        lemma_merged_empty(ours);
    }
    while items.len() > 0
        invariant
            is_listing(all, theirs),
            items@.len() <= all.len(),
            failed_items(items@) == all.take(items@.len() as int),
            failed_entries(*dest) == merged(ours, listed(all.skip(items@.len() as int))),
            forall|k: (Seq<char>, Seq<char>)|
                #![trigger ours.contains_key(k)]
                #![trigger theirs.contains_key(k)]
                ours.contains_key(k) && theirs.contains_key(k) ==> ours[k].count + theirs[k].count
                    <= usize::MAX,
        decreases items@.len(),
    {
        let ghost n = items@.len() - 1;
        let ghost before = items@;
        let item = items.pop();
        let ((protocol, name), theirs_info) = item.unwrap();
        proof {
            assert(failed_items(before)[n] == all[n]);
            assert(all[n] == ((protocol@, name@), theirs_info@));
            assert(theirs.contains_key(all[n].0) && theirs[all[n].0] == all[n].1);
            lemma_listed_later(all, theirs, n);
            lemma_merged_insert(ours, listed(all.skip(n + 1)), (protocol@, name@), theirs_info@);
            assert(failed_items(items@) =~= all.take(n));
        }
        let combined = match failed_get(dest, protocol.as_str(), name.as_str()) {
            Some(ours_info) => FailedDumpInfo {
                level: theirs_info.level,
                error: theirs_info.error,
                count: ours_info.count + theirs_info.count,
            },
            None => theirs_info,
        };
        failed_insert(dest, protocol, name, combined);
    }
    proof {
        assert(all.skip(0) =~= all);
        lemma_listing_is_listed(all, theirs);
    }
}

/// Merges the tallies of `src` into `dest`: a tally of a message that `dest`
/// does not know is taken over, any other is added to the one that `dest`
/// has.
pub fn merge_overflow(
    dest: &mut FxHashMap<(String, String, bool), OverflowDumpInfo>,
    src: FxHashMap<(String, String, bool), OverflowDumpInfo>,
)
    requires
        forall|k: (Seq<char>, Seq<char>, bool)|
            #![trigger overflow_entries(*old(dest)).contains_key(k)]
            #![trigger overflow_entries(src).contains_key(k)]
            overflow_entries(*old(dest)).contains_key(k) && overflow_entries(src).contains_key(k)
                ==> overflow_entries(*old(dest))[k].count + overflow_entries(src)[k].count
                <= usize::MAX,
    ensures
        overflow_entries(*final(dest)) == merged(
            overflow_entries(*old(dest)),
            overflow_entries(src),
        ),
{
    let ghost ours = overflow_entries(*dest);
    let ghost theirs = overflow_entries(src);
    let mut items = overflow_drain(src);
    let ghost all = overflow_items(items@);
    proof {
        assert(all.skip(all.len() as int) =~= Seq::empty());
        lemma_merged_empty(ours);
    }
    while items.len() > 0
        invariant
            is_listing(all, theirs),
            items@.len() <= all.len(),
            overflow_items(items@) == all.take(items@.len() as int),
            overflow_entries(*dest) == merged(ours, listed(all.skip(items@.len() as int))),
            forall|k: (Seq<char>, Seq<char>, bool)|
                #![trigger ours.contains_key(k)]
                #![trigger theirs.contains_key(k)]
                ours.contains_key(k) && theirs.contains_key(k) ==> ours[k].count + theirs[k].count
                    <= usize::MAX,
        decreases items@.len(),
    {
        let ghost n = items@.len() - 1;
        let ghost before = items@;
        let item = items.pop();
        let ((protocol, name, truncated), theirs_info) = item.unwrap();
        proof {
            assert(overflow_items(before)[n] == all[n]);
            assert(all[n] == ((protocol@, name@, truncated), theirs_info@));
            assert(theirs.contains_key(all[n].0) && theirs[all[n].0] == all[n].1);
            lemma_listed_later(all, theirs, n);
            lemma_merged_insert(
                ours,
                listed(all.skip(n + 1)),
                (protocol@, name@, truncated),
                theirs_info@,
            );
            assert(overflow_items(items@) =~= all.take(n));
        }
        let combined = match overflow_get(dest, protocol.as_str(), name.as_str(), truncated) {
            Some(ours_info) => OverflowDumpInfo {
                level: theirs_info.level,
                count: ours_info.count + theirs_info.count,
            },
            None => theirs_info,
        };
        overflow_insert(dest, protocol, name, truncated, combined);
    }
    proof {
        assert(all.skip(0) =~= all);
        lemma_listing_is_listed(all, theirs);
    }
}

impl Report {
    /// How many records of this message failed.
    pub fn failed_count(&self, protocol: &str, name: &str) -> (count: usize)
        ensures
            count == self@.failed_count(protocol@, name@),
    {
        match failed_get(&self.failed, protocol, name) {
            Some(info) => info.count,
            None => 0,
        }
    }

    /// How many records of this message overflowed and were dropped
    /// (`truncated` is false) or kept in truncated form (it is true).
    pub fn overflow_count(&self, protocol: &str, name: &str, truncated: bool) -> (count: usize)
        ensures
            count == self@.overflow_count(protocol@, name@, truncated),
    {
        match overflow_get(&self.overflow, protocol, name, truncated) {
            Some(info) => info.count,
            None => 0,
        }
    }

    /// Whether one more event of any class can be counted for this message.
    pub fn has_room(&self, protocol: &str, name: &str) -> (room: bool)
        ensures
            room == self@.has_room(protocol@, name@),
    {
        self.appended < usize::MAX && self.failed_count(protocol, name) < usize::MAX
            && self.overflow_count(
            protocol,
            name,
            false,
        ) < usize::MAX && self.overflow_count(protocol, name, true) < usize::MAX
    }

    /// Counts a failure of the message of `record`, with `error` as its
    /// detail, at the severity that `params` gives to failures. Counts
    /// nothing if `params` gives them none.
    pub fn add_failed(&mut self, record: &DumpRecord, error: String, params: &DumpParams)
        requires
            params.on_failure_log is Some ==> old(self)@.failed_count(
                record@.message_protocol,
                record@.message_name,
            ) < usize::MAX,
        ensures
            final(self)@ == old(self)@.with_failed(
                record@.message_protocol,
                record@.message_name,
                params.on_failure_log,
                error@,
            ),
    {
        let level = match params.on_failure_log {
            Some(level) => level,
            None => {
                return ;
            },
        };
        let count = self.failed_count(
            record.message_protocol.as_str(),
            record.message_name.as_str(),
        ) + 1;
        failed_insert(
            &mut self.failed,
            record.message_protocol.clone(),
            record.message_name.clone(),
            FailedDumpInfo { level, error, count },
        );
    }

    /// Counts an overflow of the message of `record` at the severity that
    /// `params` gives to overflows. Counts nothing if `params` gives them
    /// none.
    pub fn add_overflow(&mut self, record: &DumpRecord, truncated: bool, params: &DumpParams)
        requires
            params.on_overflow_log is Some ==> old(self)@.overflow_count(
                record@.message_protocol,
                record@.message_name,
                truncated,
            ) < usize::MAX,
        ensures
            final(self)@ == old(self)@.with_overflow(
                record@.message_protocol,
                record@.message_name,
                truncated,
                params.on_overflow_log,
            ),
    {
        let level = match params.on_overflow_log {
            Some(level) => level,
            None => {
                return ;
            },
        };
        let count = self.overflow_count(
            record.message_protocol.as_str(),
            record.message_name.as_str(),
            truncated,
        ) + 1;
        overflow_insert(
            &mut self.overflow,
            record.message_protocol.clone(),
            record.message_name.clone(),
            truncated,
            OverflowDumpInfo { level, count },
        );
    }

    /// Merges `another` into this report: the numbers of appended records
    /// add up, and so do the counts of each message; severity and detail
    /// are taken from `another` where it has the message.
    pub fn merge(&mut self, another: Report)
        requires
            old(self)@.can_merge(another@),
        ensures
            final(self)@ == old(self)@.merged(another@),
    {
        self.appended = self.appended + another.appended;
        merge_failed(&mut self.failed, another.failed);
        merge_overflow(&mut self.overflow, another.overflow);
    }
}

} // verus!
