//! The monitoring tab: the health of the cluster over the session.

use vstd::prelude::*;
use vstd::string::*;
use crate::fixed::{
    hundredths_string, hundredths_text, integer_string, integer_text, round_div, rounded_quotient,
};
use crate::keys::KeyCode;
use crate::models::monitoring::{
    after_poll, initial, Drive, Member, Monitoring, Sample, ServerVersion,
};
use crate::request::Request;
use crate::text::{decimal, push_char, push_decimal};
use crate::views::layout::{align_labels, aligned, pairs_of};

verus! {

/// The monitoring tab.
pub struct MonitoringView {
    pub model: Monitoring,
}

impl MonitoringView {
    /// A tab that has seen no poll.
    pub fn new() -> (v: Self)
        ensures
            v.model@ == initial(),
            v.model.has_room(),
    {
        MonitoringView { model: Monitoring::new() }
    }

    /// Leaves the tab. The tab keeps what it has measured.
    pub fn unload(&mut self)
        ensures
            *final(self) == *old(self),
    {
    }

    /// Takes in the version of the server, as it is asked once on entering
    /// the tab; a server that tells none counts as version `0.0.0`.
    pub fn load(&mut self, version: Option<ServerVersion>)
        ensures
            final(self).model@ == (crate::models::monitoring::MonitoringContent {
                server_version: match version {
                    Some(v) => v,
                    None => ServerVersion { major: 0, minor: 0, patch: 0 },
                },
                ..old(self).model@
            }),
    {
        self.model.server_version = match version {
            Some(v) => v,
            None => ServerVersion { major: 0, minor: 0, patch: 0 },
        };
    }

    /// Takes in one poll. Once a counter has reached the greatest number of
    /// its type the poll is dropped and the model stays as it is.
    pub fn refresh(&mut self, stats: Sample, gossip: Vec<Member>) -> (taken: bool)
        ensures
            taken == old(self).model.has_room(),
            taken ==> final(self).model@ == after_poll(old(self).model@, stats, gossip@),
            !taken ==> final(self).model@ == old(self).model@,
    {
        if self.model.check_room() {
            self.model.update(stats, gossip);
            true
        } else {
            false
        }
    }

    /// How the tab reacts to a key: `q` asks to leave, nothing else is
    /// heard, and the tab stays as it is.
    pub open spec fn reacts(before: Self, after: Self, key: KeyCode, request: Request) -> bool {
        &&& request == if key.is_quit() {
            Request::Exit
        } else {
            Request::Noop
        }
        &&& after == before
    }

    /// Reacts to a key.
    pub fn on_key_pressed(&mut self, key: KeyCode) -> (request: Request)
        ensures
            Self::reacts(*old(self), *final(self), key, request),
    {
        if key.quits() {
            Request::Exit
        } else {
            Request::Noop
        }
    }

    /// The tab adds no keys to those of the session.
    pub fn keybindings(&self) -> (bindings: Vec<(&'static str, &'static str)>)
        ensures
            bindings@.len() == 0,
    {
        Vec::new()
    }
}

/// Bytes in a gigabyte.
pub const GIGABYTE: i128 = 1_073_741_824;

/// A number of bytes as gigabytes with two decimals and the unit.
pub open spec fn gigabytes_text(bytes: usize) -> Seq<char> {
    hundredths_text(rounded_quotient(bytes * 100, GIGABYTE as int)) + " GB"@
}

/// A number, or `N/A` where there is none.
pub open spec fn optional_text(value: Option<i64>) -> Seq<char> {
    match value {
        Some(v) => integer_text(v as int),
        None => "N/A"@,
    }
}

/// A version as text: `v`, then the three numbers with dots between them.
pub open spec fn version_text(v: ServerVersion) -> Seq<char> {
    seq!['v'] + decimal(v.major as nat) + seq!['.'] + decimal(v.minor as nat) + seq!['.']
        + decimal(v.patch as nat)
}

/// The key metrics of the cluster: a label and a value each.
pub open spec fn key_metric_rows(m: crate::models::monitoring::MonitoringContent) -> Seq<
    (Seq<char>, Seq<char>),
> {
    seq![
        ("Epoch number"@, optional_text(m.last_epoch_number)),
        ("Writer checkpoint"@, optional_text(m.last_writer_checkpoint)),
        ("Elections"@, decimal(m.elections)),
        ("Out of syncs"@, decimal(m.out_of_sync_cluster_counter)),
        ("Unresponsive nodes"@, decimal(m.unresponsive_nodes)),
        ("Free memory"@, gigabytes_text(m.free_mem)),
        ("Version"@, version_text(m.server_version)),
    ]
}

/// The metrics of a drive: a label and a value each.
pub open spec fn drive_metric_rows(d: Drive) -> Seq<(Seq<char>, Seq<char>)> {
    seq![
        ("Directory"@, d.path@),
        ("Total"@, gigabytes_text(d.total_bytes)),
        ("Available"@, gigabytes_text(d.available_bytes)),
        ("Used"@, gigabytes_text(d.used_bytes) + seq![' ', '('] + d.usage@ + seq![')']),
    ]
}

/// A number of bytes as gigabytes with two decimals and the unit.
pub fn gigabytes_string(bytes: usize) -> (text: String)
    ensures
        text@ == gigabytes_text(bytes),
{
    let mut text = hundredths_string(round_div(bytes as i128 * 100, GIGABYTE));
    text.append(" GB");
    text
}

/// A number, or `N/A` where there is none.
pub fn optional_string(value: Option<i64>) -> (text: String)
    ensures
        text@ == optional_text(value),
{
    match value {
        Some(v) => integer_string(v as i128),
        None => "N/A".to_owned(),
    }
}

/// The decimal numeral of a count.
pub fn count_string(n: usize) -> (text: String)
    ensures
        text@ == decimal(n as nat),
{
    let mut text = String::new();
    push_decimal(&mut text, n as u128);
    assert(text@ =~= decimal(n as nat));
    text
}

/// A version as text.
pub fn version_string(v: &ServerVersion) -> (text: String)
    ensures
        text@ == version_text(*v),
{
    let mut text = String::new();
    push_char(&mut text, 'v');
    push_decimal(&mut text, v.major as u128);
    push_char(&mut text, '.');
    push_decimal(&mut text, v.minor as u128);
    push_char(&mut text, '.');
    push_decimal(&mut text, v.patch as u128);
    assert(text@ =~= version_text(*v));
    text
}

impl MonitoringView {
    /// The key metrics of the cluster, their labels filled up to a common
    /// width.
    pub fn key_metrics(&self) -> (rows: Vec<(String, String)>)
        ensures
            pairs_of(rows@) == aligned(key_metric_rows(self.model@)),
    {
        let rows = vec![
            ("Epoch number".to_owned(), optional_string(self.model.last_epoch_number)),
            ("Writer checkpoint".to_owned(), optional_string(self.model.last_writer_checkpoint)),
            ("Elections".to_owned(), count_string(self.model.elections)),
            ("Out of syncs".to_owned(), count_string(self.model.out_of_sync_cluster_counter)),
            ("Unresponsive nodes".to_owned(), count_string(self.model.unresponsive_nodes)),
            ("Free memory".to_owned(), gigabytes_string(self.model.free_mem)),
            ("Version".to_owned(), version_string(&self.model.server_version)),
        ];
        assert(pairs_of(rows@) =~= key_metric_rows(self.model@));
        align_labels(rows)
    }

    /// The metrics of the drive that holds the database, their labels filled
    /// up to a common width; `None` where no drive is known.
    pub fn drive_metrics(&self) -> (rows: Option<Vec<(String, String)>>)
        ensures
            rows is Some <==> self.model.drive is Some,
            rows is Some ==> pairs_of(rows->0@) == aligned(
                drive_metric_rows(self.model.drive->0),
            ),
    {
        match &self.model.drive {
            Some(drive) => {
                let mut used = gigabytes_string(drive.used_bytes);
                push_char(&mut used, ' ');
                push_char(&mut used, '(');
                used.append(drive.usage.as_str());
                push_char(&mut used, ')');
                assert(used@ =~= gigabytes_text(drive.used_bytes) + seq![' ', '('] + drive.usage@
                    + seq![')']);
                let rows = vec![
                    ("Directory".to_owned(), drive.path.clone()),
                    ("Total".to_owned(), gigabytes_string(drive.total_bytes)),
                    ("Available".to_owned(), gigabytes_string(drive.available_bytes)),
                    ("Used".to_owned(), used),
                ];
                assert(pairs_of(rows@) =~= drive_metric_rows(*drive));
                Some(align_labels(rows))
            },
            None => None,
        }
    }
}

impl Default for MonitoringView {
    /// A tab that has seen no poll.
    fn default() -> (v: Self)
        ensures
            v.model@ == initial(),
            v.model.has_room(),
    {
        MonitoringView::new()
    }
}

} // verus!
