//! The scrape-format publisher: buffers the latest sample per exported
//! path and renders one text record per path.
//!
//! The publisher subscribes to the paths its configuration names; for
//! each it keeps the most recent `(value, timestamp)` pair, and a scrape
//! renders `# HELP` and `# TYPE` headers followed by the sample line,
//! for the stream kinds the scrape format knows.  The buffer is kept
//! ascending by path, so a scrape lists the paths in ascending order.

use vstd::prelude::*;

use crate::provider::joined_with;
use crate::provider::lemma_path_lt_irrefl;
use crate::provider::lemma_path_lt_total;
use crate::provider::lemma_path_lt_trans;
use crate::provider::path_lt;
use crate::provider::lemma_joined_with_push;
use crate::provider::Description;
use crate::provider::DescriptionV;
use crate::provider::Path;
use crate::provider::Timestamp;
use crate::text::int_text;
use crate::text::i64_text;

verus! {

/// The abstract value of one buffered export record.
#[verifier::ext_equal]
pub ghost struct ExportRecordV {
    pub description: DescriptionV,
    pub data: Option<(i64, i64)>,
}

/// One buffered export record: the stream's description and its most
/// recent sample, if any arrived yet.
pub struct ExportRecord {
    pub description: Description,
    pub data: Option<(i64, Timestamp)>,
}

impl View for ExportRecord {
    type V = ExportRecordV;

    open spec fn view(&self) -> ExportRecordV {
        ExportRecordV {
            description: self.description@,
            data: (match self.data {
                Some((value, ts)) => Some((value, ts.0)),
                None => None,
            }),
        }
    }
}

/// The scrape-format type of a stream kind: counters and pulses export,
/// the rest do not.
pub open spec fn prom_type(stream_type: Seq<char>) -> Option<Seq<char>> {
    if stream_type == "rillrate.counter.v0"@ {
        Some("counter"@)
    } else if stream_type == "rillrate.pulse.v0"@ {
        Some("gauge"@)
    } else {
        None
    }
}

/// The scrape text of one record: nothing without a sample or for an
/// unknown kind, else the two headers and the sample line.
pub open spec fn record_text(m: ExportRecordV) -> Seq<char> {
    match m.data {
        None => Seq::empty(),
        Some((value, ts)) => match prom_type(m.description.stream_type) {
            None => Seq::empty(),
            Some(typ) => {
                let name = joined_with(m.description.path, seq!['_']);
                "# HELP "@ + m.description.info + "\n"@ + "# TYPE "@ + name + " "@ + typ + "\n"@
                    + name + " "@ + int_text(value as int) + " "@ + int_text(ts as int)
                    + "\n\n"@
            },
        },
    }
}

/// The scrape text of a list of records, in order.
pub open spec fn render_text(ms: Seq<ExportRecordV>) -> Seq<char>
    decreases ms.len(),
{
    if ms.len() == 0 {
        Seq::empty()
    } else {
        record_text(ms[0]) + render_text(ms.skip(1))
    }
}

/// Rendering one more record appends its text.
pub proof fn lemma_render_text_push(ms: Seq<ExportRecordV>, m: ExportRecordV)
    ensures
        render_text(ms.push(m)) == render_text(ms) + record_text(m),
    decreases ms.len(),
{
    if ms.len() == 0 {
        assert(ms.push(m)[0] == m);
        assert(ms.push(m).skip(1) =~= Seq::<ExportRecordV>::empty());
        assert(render_text(Seq::<ExportRecordV>::empty()) == Seq::<char>::empty());
        assert(render_text(ms.push(m)) =~= record_text(m));
        assert(render_text(ms) + record_text(m) =~= record_text(m));
    } else {
        lemma_render_text_push(ms.skip(1), m);
        assert(ms.push(m).skip(1) =~= ms.skip(1).push(m));
        assert(render_text(ms) + record_text(m) =~= record_text(ms[0]) + (render_text(ms.skip(1))
            + record_text(m)));
    }
}

/// The position a new path takes in the buffer: before the first
/// record whose path sorts after it, so the buffer stays ascending by
/// path.
pub open spec fn insert_pos(ms: Seq<ExportRecordV>, p: Seq<Seq<char>>) -> int
    decreases ms.len(),
{
    if ms.len() == 0 {
        0
    } else if path_lt(p, ms[0].description.path) {
        0
    } else {
        1 + insert_pos(ms.drop_first(), p)
    }
}

/// The insertion position lies within the buffer.
pub proof fn lemma_insert_pos_in_range(ms: Seq<ExportRecordV>, p: Seq<Seq<char>>)
    ensures
        0 <= insert_pos(ms, p) <= ms.len(),
    decreases ms.len(),
{
    if ms.len() > 0 && !path_lt(p, ms[0].description.path) {
        lemma_insert_pos_in_range(ms.drop_first(), p);
    }
}

/// The insertion position is the first whose record's path sorts after
/// the new one.
pub proof fn lemma_insert_pos_is_first(ms: Seq<ExportRecordV>, p: Seq<Seq<char>>, idx: int)
    requires
        0 <= idx <= ms.len(),
        forall|j: int| 0 <= j < idx ==> !path_lt(p, (#[trigger] ms[j]).description.path),
        idx == ms.len() || path_lt(p, ms[idx as int].description.path),
    ensures
        insert_pos(ms, p) == idx,
    decreases ms.len(),
{
    if ms.len() == 0 {
    } else if path_lt(p, ms[0].description.path) {
        assert(idx == 0);
    } else {
        assert(idx >= 1);
        let rest = ms.drop_first();
        assert forall|j: int|
            0 <= j < idx - 1 implies !path_lt(p, (#[trigger] rest[j]).description.path) by {
            assert(rest[j] == ms[j + 1]);
        }
        if idx < ms.len() {
            assert(rest[idx - 1] == ms[idx as int]);
        }
        lemma_insert_pos_is_first(rest, p, idx - 1);
    }
}

/// The buffered records are ascending by path.
pub open spec fn metrics_sorted(ms: Seq<ExportRecordV>) -> bool {
    forall|i: int, j: int|
        0 <= i < j < ms.len() ==> path_lt(
            (#[trigger] ms[i]).description.path,
            (#[trigger] ms[j]).description.path,
        )
}

/// The records a notification leaves behind: a matching, unseen path
/// takes its sorted place, with no sample yet.
pub open spec fn notify_one(
    config: Seq<Seq<Seq<char>>>,
    ms: Seq<ExportRecordV>,
    d: DescriptionV,
) -> Seq<ExportRecordV> {
    if config.contains(d.path) && !metrics_has(ms, d.path) {
        ms.insert(insert_pos(ms, d.path), ExportRecordV { description: d, data: None })
    } else {
        ms
    }
}

/// Whether a record for the path is already buffered.
pub open spec fn metrics_has(ms: Seq<ExportRecordV>, p: Seq<Seq<char>>) -> bool {
    exists|i: int| 0 <= i < ms.len() && (#[trigger] ms[i]).description.path == p
}

/// Each exported path is buffered at most once.
pub open spec fn metrics_distinct(ms: Seq<ExportRecordV>) -> bool {
    forall|i: int, j: int|
        0 <= i < j < ms.len() ==> (#[trigger] ms[i]).description.path != (
        #[trigger] ms[j]).description.path
}

/// The records after a whole batch of notifications.
pub open spec fn notify_all(
    config: Seq<Seq<Seq<char>>>,
    ms: Seq<ExportRecordV>,
    ds: Seq<DescriptionV>,
) -> Seq<ExportRecordV>
    decreases ds.len(),
{
    if ds.len() == 0 {
        ms
    } else {
        notify_all(config, notify_one(config, ms, ds[0]), ds.skip(1))
    }
}

/// The paths of a batch of notifications that the configuration names:
/// the publisher subscribes to each.
pub open spec fn subs_of(config: Seq<Seq<Seq<char>>>, ds: Seq<DescriptionV>) -> Seq<Seq<Seq<char>>>
    decreases ds.len(),
{
    if ds.len() == 0 {
        Seq::empty()
    } else {
        let rest = subs_of(config, ds.skip(1));
        if config.contains(ds[0].path) {
            seq![ds[0].path] + rest
        } else {
            rest
        }
    }
}

/// Inserting a fresh path at its sorted place keeps the buffer
/// ascending and duplicate-free.
proof fn lemma_sorted_insert(
    ms: Seq<ExportRecordV>,
    p: Seq<Seq<char>>,
    idx: int,
    rec: ExportRecordV,
)
    requires
        metrics_sorted(ms),
        metrics_distinct(ms),
        !metrics_has(ms, p),
        rec.description.path == p,
        0 <= idx <= ms.len(),
        forall|j: int| 0 <= j < idx ==> !path_lt(p, (#[trigger] ms[j]).description.path),
        idx == ms.len() || path_lt(p, ms[idx].description.path),
    ensures
        metrics_sorted(ms.insert(idx, rec)),
        metrics_distinct(ms.insert(idx, rec)),
{
    let new = ms.insert(idx, rec);
    ms.insert_ensures(idx, rec);
    assert forall|a: int, b: int| 0 <= a < b < new.len() implies path_lt(
        (#[trigger] new[a]).description.path,
        (#[trigger] new[b]).description.path,
    ) by {
        if a < idx && b == idx {
            assert(ms[a].description.path != p);
            lemma_path_lt_total(ms[a].description.path, p, 0);
        } else if a == idx && b > idx {
            if b - 1 > idx {
                lemma_path_lt_trans(
                    p,
                    ms[idx].description.path,
                    ms[b - 1].description.path,
                    0,
                );
            }
        }
    }
    assert forall|a: int, b: int| 0 <= a < b < new.len() implies (
    #[trigger] new[a]).description.path != (#[trigger] new[b]).description.path by {
        if new[a].description.path == new[b].description.path {
            lemma_path_lt_irrefl(new[a].description.path, 0);
        }
    }
}

/// The publisher: the configured paths and the buffered records.
pub struct PrometheusPublisher {
    config: Vec<Path>,
    metrics: Vec<ExportRecord>,
}

impl PrometheusPublisher {
    /// The configured paths.
    pub closed spec fn config_model(&self) -> Seq<Seq<Seq<char>>> {
        self.config@.map(|i: int, p: Path| p@)
    }

    /// The buffered records.
    pub closed spec fn metrics_model(&self) -> Seq<ExportRecordV> {
        self.metrics@.map(|i: int, r: ExportRecord| r@)
    }

    /// The buffer is ascending by path, so each exported path is
    /// buffered at most once and a scrape lists paths in ascending
    /// order.
    pub open spec fn wf(&self) -> bool {
        &&& metrics_sorted(self.metrics_model())
        &&& metrics_distinct(self.metrics_model())
    }

    /// Builds a publisher for the configured paths, with nothing
    /// buffered yet.
    pub fn create(config: Vec<Path>) -> (r: PrometheusPublisher)
        ensures
            r.config_model() == config@.map(|i: int, p: Path| p@),
            r.metrics_model() == Seq::<ExportRecordV>::empty(),
            r.wf(),
    {
        let r = PrometheusPublisher { config, metrics: Vec::new() };
        proof {
            assert(r.metrics_model() =~= Seq::<ExportRecordV>::empty());
        }
        r
    }

    /// Whether the configuration names this path.
    fn config_contains(&self, path: &Path) -> (r: bool)
        ensures
            r == self.config_model().contains(path@),
    {
        let n = self.config.len();
        let mut i: usize = 0;
        while i < n
            invariant
                n == self.config@.len(),
                i <= n,
                forall|k: int| 0 <= k < i ==> self.config_model()[k] != path@,
            decreases n - i,
        {
            if &self.config[i] == path {
                proof {
                    assert(self.config_model()[i as int] == path@);
                }
                return true;
            }
            proof {
                assert(self.config_model()[i as int] == self.config@[i as int]@);
            }
            i = i + 1;
        }
        proof {
            if self.config_model().contains(path@) {
                let k = choose|k: int|
                    0 <= k < self.config_model().len() && self.config_model()[k] == path@;
                assert(self.config_model()[k] != path@);
            }
        }
        false
    }

    /// The first position whose record's path sorts after the given
    /// one: where a new record for the path belongs.
    fn insertion_index(&self, path: &Path) -> (r: usize)
        ensures
            r <= self.metrics_model().len(),
            forall|j: int|
                0 <= j < r ==> !path_lt(
                    path@,
                    (#[trigger] self.metrics_model()[j]).description.path,
                ),
            r == self.metrics_model().len() || path_lt(
                path@,
                self.metrics_model()[r as int].description.path,
            ),
    {
        let n = self.metrics.len();
        let mut i: usize = 0;
        while i < n
            invariant
                n == self.metrics@.len(),
                i <= n,
                forall|j: int|
                    0 <= j < i ==> !path_lt(
                        path@,
                        (#[trigger] self.metrics_model()[j]).description.path,
                    ),
            decreases n - i,
        {
            if path.before(&self.metrics[i].description.path) {
                proof {
                    assert(self.metrics_model()[i as int] == self.metrics@[i as int]@);
                }
                return i;
            }
            proof {
                assert(self.metrics_model()[i as int] == self.metrics@[i as int]@);
            }
            i = i + 1;
        }
        n
    }

    /// The position of the buffered record for a path, if any.
    fn find_metric(&self, path: &Path) -> (r: Option<usize>)
        ensures
            r matches Some(i) ==> i < self.metrics_model().len() && self.metrics_model()[
                i as int
            ].description.path == path@,
            r is None ==> !metrics_has(self.metrics_model(), path@),
    {
        let n = self.metrics.len();
        let mut i: usize = 0;
        while i < n
            invariant
                n == self.metrics@.len(),
                i <= n,
                forall|k: int|
                    0 <= k < i ==> (#[trigger] self.metrics_model()[k]).description.path != path@,
            decreases n - i,
        {
            if &self.metrics[i].description.path == path {
                proof {
                    assert(self.metrics_model()[i as int] == self.metrics@[i as int]@);
                }
                return Some(i);
            }
            proof {
                assert(self.metrics_model()[i as int] == self.metrics@[i as int]@);
            }
            i = i + 1;
        }
        None
    }

    /// Takes one path notification: buffers a record for each newly
    /// exported path, and names the path when the configuration asks
    /// for its data.
    pub fn handle_description(&mut self, description: Description) -> (subscribe: bool)
        ensures
            final(self).config_model() == old(self).config_model(),
            final(self).metrics_model() == notify_one(
                old(self).config_model(),
                old(self).metrics_model(),
                description@,
            ),
            subscribe == old(self).config_model().contains(description@.path),
            old(self).wf() ==> final(self).wf(),
    {
        let wanted = self.config_contains(&description.path);
        if wanted {
            match self.find_metric(&description.path) {
                Some(i) => {
                },
                None => {
                    let idx = self.insertion_index(&description.path);
                    let ghost p = description@.path;
                    let ghost pre = old(self).metrics_model();
                    let ghost rec = (ExportRecordV { description: description@, data: None });
                    proof {
                        lemma_insert_pos_is_first(pre, p, idx as int);
                    }
                    let record = ExportRecord { description, data: None };
                    self.metrics.insert(idx, record);
                    proof {
                        pre.insert_ensures(idx as int, rec);
                        old(self).metrics@.insert_ensures(idx as int, record);
                        assert forall|k: int|
                            0 <= k < self.metrics_model().len() implies self.metrics_model()[k]
                            == pre.insert(idx as int, rec)[k] by {
                            assert(self.metrics_model()[k] == self.metrics@[k]@);
                        }
                        assert(self.metrics_model() =~= pre.insert(idx as int, rec));
                        if metrics_sorted(pre) && metrics_distinct(pre) {
                            lemma_sorted_insert(pre, p, idx as int, rec);
                        }
                    }
                },
            }
        }
        wanted
    }

    /// Takes one whole path notification: buffers records for the newly
    /// exported paths and returns, in order, every named path whose data
    /// the publisher must subscribe to.
    pub fn handle_path_notification(&mut self, descriptions: Vec<Description>) -> (subscribe: Vec<
        Path,
    >)
        ensures
            final(self).config_model() == old(self).config_model(),
            final(self).metrics_model() == notify_all(
                old(self).config_model(),
                old(self).metrics_model(),
                descriptions@.map(|i: int, d: Description| d@),
            ),
            subscribe@.map(|i: int, p: Path| p@) == subs_of(
                old(self).config_model(),
                descriptions@.map(|i: int, d: Description| d@),
            ),
            old(self).wf() ==> final(self).wf(),
    {
        let ghost config = self.config_model();
        let ghost ds = descriptions@.map(|i: int, d: Description| d@);
        let mut subscribe: Vec<Path> = Vec::new();
        let n = descriptions.len();
        let mut i: usize = 0;
        proof {
            assert(ds.skip(0) =~= ds);
            assert(subscribe@.map(|k: int, p: Path| p@) =~= Seq::<Seq<Seq<char>>>::empty());
            assert(Seq::<Seq<Seq<char>>>::empty() + subs_of(config, ds) =~= subs_of(config, ds));
        }
        while i < n
            invariant
                n == descriptions@.len(),
                i <= n,
                ds == descriptions@.map(|k: int, d: Description| d@),
                config == self.config_model(),
                old(self).wf() ==> self.wf(),
                notify_all(config, self.metrics_model(), ds.skip(i as int)) == notify_all(
                    config,
                    old(self).metrics_model(),
                    ds,
                ),
                subscribe@.map(|k: int, p: Path| p@) + subs_of(config, ds.skip(i as int))
                    =~= subs_of(config, ds),
            decreases n - i,
        {
            let ghost ms_before = self.metrics_model();
            let ghost subs_before = subscribe@.map(|k: int, p: Path| p@);
            let description = descriptions[i].clone();
            let path = description.path.clone();
            proof {
                assert(ds.skip(i as int)[0] == ds[i as int]);
                assert(ds[i as int] == descriptions@[i as int]@);
                assert(ds.skip(i as int).skip(1) =~= ds.skip(i + 1));
            }
            let wanted = self.handle_description(description);
            if wanted {
                subscribe.push(path);
                proof {
                    assert(subscribe@.map(|k: int, p: Path| p@) =~= subs_before.push(
                        ds[i as int].path,
                    ));
                    assert(subs_of(config, ds.skip(i as int)) =~= seq![ds[i as int].path]
                        + subs_of(config, ds.skip(i + 1)));
                    assert(subs_before.push(ds[i as int].path) + subs_of(config, ds.skip(i + 1))
                        =~= subs_before + (seq![ds[i as int].path] + subs_of(
                        config,
                        ds.skip(i + 1),
                    )));
                }
            } else {
                proof {
                    assert(subs_of(config, ds.skip(i as int)) =~= subs_of(config, ds.skip(i + 1)));
                }
            }
            i = i + 1;
        }
        proof {
            assert(ds.skip(n as int) =~= Seq::<DescriptionV>::empty());
            assert(notify_all(config, self.metrics_model(), Seq::<DescriptionV>::empty())
                == self.metrics_model());
            assert(subs_of(config, Seq::<DescriptionV>::empty()) == Seq::<Seq<Seq<char>>>::empty());
            assert(subscribe@.map(|k: int, p: Path| p@) + Seq::<Seq<Seq<char>>>::empty()
                =~= subscribe@.map(|k: int, p: Path| p@));
        }
        subscribe
    }

    /// Takes one broadcast sample: a path with a buffered record has it
    /// refreshed to exactly this sample, all other records untouched; a
    /// path without one changes nothing.
    pub fn handle_export_event(&mut self, path: &Path, value: i64, timestamp: Timestamp)
        ensures
            final(self).config_model() == old(self).config_model(),
            !metrics_has(old(self).metrics_model(), path@) ==> final(self).metrics_model() == old(
                self,
            ).metrics_model(),
            metrics_has(old(self).metrics_model(), path@) ==> exists|i: int|
                0 <= i < old(self).metrics_model().len() && (#[trigger] old(
                    self,
                ).metrics_model()[i]).description.path == path@ && final(self).metrics_model()
                    == old(self).metrics_model().update(
                    i,
                    ExportRecordV {
                        description: old(self).metrics_model()[i].description,
                        data: Some((value, timestamp.0)),
                    },
                ),
            old(self).wf() ==> final(self).wf(),
    {
        match self.find_metric(path) {
            Some(i) => {
                let description = self.metrics[i].description.clone();
                let record = ExportRecord { description, data: Some((value, timestamp)) };
                self.metrics.set(i, record);
                proof {
                    assert(old(self).metrics_model()[i as int].description.path == path@);
                    assert(self.metrics_model() =~= old(self).metrics_model().update(
                        i as int,
                        ExportRecordV {
                            description: old(self).metrics_model()[i as int].description,
                            data: Some((value, timestamp.0)),
                        },
                    ));
                    if old(self).wf() {
                        assert forall|a: int, b: int|
                            0 <= a < b < self.metrics_model().len() implies path_lt(
                            (#[trigger] self.metrics_model()[a]).description.path,
                            (#[trigger] self.metrics_model()[b]).description.path,
                        ) && self.metrics_model()[a].description.path
                            != self.metrics_model()[b].description.path by {
                            assert(self.metrics_model()[a].description.path == old(
                                self,
                            ).metrics_model()[a].description.path);
                            assert(self.metrics_model()[b].description.path == old(
                                self,
                            ).metrics_model()[b].description.path);
                        }
                    }
                }
            },
            None => {
            },
        }
    }

    /// Renders the scrape output: one text record per buffered path
    /// that has a sample and a kind the format knows.  The buffer is
    /// kept ascending by path, so the records come out in ascending
    /// path order.
    pub fn render(&self) -> (r: String)
        ensures
            r@ == render_text(self.metrics_model()),
    {
        let ghost models = self.metrics_model();
        let mut buffer = String::new();
        let n = self.metrics.len();
        let mut i: usize = 0;
        while i < n
            invariant
                n == self.metrics@.len(),
                i <= n,
                models == self.metrics_model(),
                buffer@ == render_text(models.take(i as int)),
            decreases n - i,
        {
            let record = &self.metrics[i];
            proof {
                assert(models[i as int] == self.metrics@[i as int]@);
                assert(models.take(i + 1) =~= models.take(i as int).push(models[i as int]));
                lemma_render_text_push(models.take(i as int), models[i as int]);
            }
            match &record.data {
                None => {
                    proof {
                        assert(record_text(models[i as int]) =~= Seq::<char>::empty());
                        assert(buffer@ =~= render_text(models.take(i + 1)));
                    }
                },
                Some(sample) => {
                    let typ: Option<&'static str> = if record.description.stream_type.matches_str(
                        "rillrate.counter.v0",
                    ) {
                        Some("counter")
                    } else if record.description.stream_type.matches_str("rillrate.pulse.v0") {
                        Some("gauge")
                    } else {
                        None
                    };
                    match typ {
                        None => {
                            proof {
                                assert(record_text(models[i as int]) =~= Seq::<char>::empty());
                                assert(buffer@ =~= render_text(models.take(i + 1)));
                            }
                        },
                        Some(typ) => {
                            let name = metric_name(&record.description.path);
                            proof {
                                reveal_strlit("# HELP ");
                                reveal_strlit("# TYPE ");
                                reveal_strlit(" ");
                                reveal_strlit("\n");
                                reveal_strlit("\n\n");
                                reveal_strlit("counter");
                                reveal_strlit("gauge");
                                reveal_strlit("rillrate.counter.v0");
                                reveal_strlit("rillrate.pulse.v0");
                            }
                            buffer.append("# HELP ");
                            buffer.append(record.description.info.as_str());
                            buffer.append("\n");
                            buffer.append("# TYPE ");
                            buffer.append(name.as_str());
                            buffer.append(" ");
                            buffer.append(typ);
                            buffer.append("\n");
                            buffer.append(name.as_str());
                            buffer.append(" ");
                            buffer.append(i64_text(sample.0).as_str());
                            buffer.append(" ");
                            buffer.append(i64_text(sample.1.as_millis()).as_str());
                            buffer.append("\n\n");
                            proof {
                                assert(buffer@ =~= render_text(models.take(i + 1)));
                            }
                        },
                    }
                },
            }
            i = i + 1;
        }
        proof {
            assert(models.take(n as int) =~= models);
        }
        buffer
    }
}

/// The scrape name of a path: its entries joined with `_`.
fn metric_name(path: &Path) -> (r: String)
    ensures
        r@ == joined_with(path@, seq!['_']),
{
    let mut buffer = String::new();
    let n = path.len();
    if n == 0 {
        return buffer;
    }
    buffer.append(path.get(0).as_str());
    let mut i: usize = 1;
    while i < n
        invariant
            n == path@.len(),
            1 <= i <= n,
            buffer@ == joined_with(path@.take(i as int), seq!['_']),
        decreases n - i,
    {
        proof {
            reveal_strlit("_");
        }
        buffer.append("_");
        buffer.append(path.get(i).as_str());
        proof {
            assert(path@.take(i as int).push(path@[i as int]) =~= path@.take(i + 1));
            lemma_joined_with_push(path@.take(i as int), seq!['_'], path@[i as int]);
            assert("_"@ =~= seq!['_']);
        }
        i = i + 1;
    }
    proof {
        assert(path@.take(n as int) =~= path@);
    }
    buffer
}

} // verus!
