//! Uptime-style per-VM and aggregate status lines.
use vstd::prelude::*;
use vstd::seq_lib::seq_to_set_is_finite;
use vstd::set_lib::{lemma_int_range, lemma_subset_equality, set_int_range};

use crate::clock::{capped, lemma_capped_add, Duration};
use crate::config::Config;
use crate::controller::distinct;
use crate::instance::Instance;
use crate::paths::{
    law_slash_free_text_is_one_piece, law_text_after_a_slash_is_a_piece, pieces,
};
use crate::rolling::{
    cell_text, cells_text, format_1_5_15, format_cells, window_minutes, windows, RollingMetrics,
};
use crate::rolling_laws::{
    law_cell_reads_back, law_cells_are_parted_by_slashes, number_of, stopped_sum,
};
use crate::text::{
    decimal, decimal_text, lemma_text_le_antisymmetric, lemma_text_le_total,
    lemma_text_le_transitive, text_at_or_before, text_le, trim, trimmed,
};

verus! {

/// One per-VM status record.
#[derive(Debug)]
pub struct StatusLine {
    /// Name of the VM.
    pub vm: String,
    /// Worker count.
    pub thr: u32,
    /// Read, write and other operations per second.
    pub iops: String,
    /// Operations per second over the three windows.
    pub iops_1_5_15m: String,
    /// Read and write megabytes per second.
    pub bw_mb_s: String,
    /// Average, median and total worker CPU, in percent.
    pub cpu: String,
    /// CPU microseconds per operation over the three windows.
    pub cpu_us_per_io_1_5_15m: String,
}

/// The record about all VMs together.
#[derive(Debug)]
pub struct AggregateLine {
    /// Number of tracked VMs.
    pub tracked_vms: usize,
    /// Workers of all VMs.
    pub total_threads: u64,
    /// Operations per second over the three windows.
    pub iops_1_5_15m: String,
}

/// The records of one tick.
#[derive(Debug)]
pub struct StatusReport {
    /// One record per VM, where those are switched on.
    pub lines: Vec<StatusLine>,
    /// The record about all VMs, where that is switched on.
    pub aggregate: Option<AggregateLine>,
}

impl StatusLine {
    /// This record shows `instance`, with the given rates over the three windows.
    pub open spec fn renders(
        self,
        instance: Instance,
        first: Option<u64>,
        second: Option<u64>,
        third: Option<u64>,
    ) -> bool {
        let rates = instance.status.rates;
        let cpu = instance.status.cpu;
        let history = instance.status.rolling@;
        &&& self.vm@ == trimmed(instance.id@)
        &&& self.thr == instance.status.thread_count
        &&& self.iops@ == cells_text(
            Some(rates.read_iops),
            Some(rates.write_iops),
            Some(rates.other_iops),
        )
        &&& self.iops_1_5_15m@ == cells_text(first, second, third)
        &&& self.bw_mb_s@ == decimal((rates.read_bytes_per_second / 1_000_000) as nat).push('/')
            + decimal((rates.write_bytes_per_second / 1_000_000) as nat)
        &&& self.cpu@ == cells_text(
            Some(cpu.avg_pct),
            Some(cpu.median_pct),
            Some(cpu.total_pct),
        )
        &&& self.cpu_us_per_io_1_5_15m@ == cells_text(
            history.cpu_us_per_io(window_minutes(0)),
            history.cpu_us_per_io(window_minutes(1)),
            history.cpu_us_per_io(window_minutes(2)),
        )
    }

    /// This record shows `instance`, with the rates of its own history.
    pub open spec fn shows(self, instance: Instance) -> bool {
        let history = instance.status.rolling@;
        self.renders(
            instance,
            history.iops(window_minutes(0)),
            history.iops(window_minutes(1)),
            history.iops(window_minutes(2)),
        )
    }
}

/// `order` lists the places of a fleet, each once, by the names of the VMs there.
pub open spec fn in_name_order(fleet: Seq<Instance>, order: Seq<usize>) -> bool {
    &&& order.len() == fleet.len()
    &&& forall|i: int| 0 <= i < order.len() ==> (#[trigger] order[i]) < fleet.len()
    &&& forall|i: int, j: int|
        0 <= i < j < order.len() ==> #[trigger] order[i] != #[trigger] order[j] && text_le(
            fleet[order[i] as int].id@,
            fleet[order[j] as int].id@,
        )
}

/// Workers of all VMs of a fleet.
pub open spec fn fleet_threads(fleet: Seq<Instance>) -> nat
    decreases fleet.len(),
{
    if fleet.len() == 0 {
        0
    } else {
        fleet_threads(fleet.drop_last()) + fleet.last().status.thread_count as nat
    }
}

/// Operations per second of all VMs of a fleet that have a rate over a window.
pub open spec fn fleet_rate(fleet: Seq<Instance>, window: Duration) -> nat
    decreases fleet.len(),
{
    if fleet.len() == 0 {
        0
    } else {
        fleet_rate(fleet.drop_last(), window) + match fleet.last().status.rolling@.iops(window) {
            Some(rate) => rate as nat,
            None => 0,
        }
    }
}

/// Some VM of a fleet has a rate over a window.
pub open spec fn has_rate(fleet: Seq<Instance>, window: Duration) -> bool {
    exists|i: int| 0 <= i < fleet.len() && (#[trigger] fleet[i]).status.rolling@.iops(window) is Some
}

/// The rate of a fleet over a window, capped to what a counter can hold; nothing
/// where no VM has one.
pub open spec fn fleet_iops(fleet: Seq<Instance>, window: Duration) -> Option<u64> {
    if has_rate(fleet, window) {
        Some(capped(fleet_rate(fleet, window)))
    } else {
        None
    }
}

impl AggregateLine {
    /// This record shows `fleet`.
    pub open spec fn shows(self, fleet: Seq<Instance>) -> bool {
        &&& self.tracked_vms == fleet.len()
        &&& self.total_threads == fleet_threads(fleet)
        &&& self.iops_1_5_15m@ == cells_text(
            fleet_iops(fleet, window_minutes(0)),
            fleet_iops(fleet, window_minutes(1)),
            fleet_iops(fleet, window_minutes(2)),
        )
    }
}

/// The one-time legend that describes the fields: of a per-VM line, and of the
/// aggregate line.
pub fn emit_legend() -> (legend: (String, String))
    ensures
        legend.0@
            == "# vm=<id> thr=<threads> iops=<read>/<write>/<other> iops_1_5_15m=<1m>/<5m>/<15m> bw_mb_s=<read>/<write> cpu=<average>/<median>/<total> cpu_us_per_io_1_5_15m=<1m>/<5m>/<15m>"@,
        legend.1@
            == "# aggregate tracked=<instances> total_threads=<threads> iops_1_5_15m=<1m>/<5m>/<15m>"@,
{
    (
        "# vm=<id> thr=<threads> iops=<read>/<write>/<other> iops_1_5_15m=<1m>/<5m>/<15m> bw_mb_s=<read>/<write> cpu=<average>/<median>/<total> cpu_us_per_io_1_5_15m=<1m>/<5m>/<15m>".to_owned(),
        "# aggregate tracked=<instances> total_threads=<threads> iops_1_5_15m=<1m>/<5m>/<15m>".to_owned(),
    )
}

/// Rates over the three windows.
fn iops_windows(metrics: &RollingMetrics) -> (cells: [Option<u64>; 3])
    ensures
        forall|w: int| 0 <= w < 3 ==> #[trigger] cells@[w] == metrics@.iops(window_minutes(w)),
{
    let windows = windows();
    assert(windows@[0] == window_minutes(0));
    assert(windows@[1] == window_minutes(1));
    assert(windows@[2] == window_minutes(2));
    [
        metrics.iops_over(windows[0]),
        metrics.iops_over(windows[1]),
        metrics.iops_over(windows[2]),
    ]
}

/// Make the record of one VM. `iops_windows` are the rates to show over the three
/// windows.
pub fn emit_instance_status(instance: &Instance, iops_windows: [Option<u64>; 3]) -> (line:
    StatusLine)
    ensures
        line.renders(*instance, iops_windows@[0], iops_windows@[1], iops_windows@[2]),
{
    let status = &instance.status;
    let mut bw_mb_s: String = decimal_text(status.rates.read_bytes_per_second / 1_000_000);
    bw_mb_s.push('/');
    bw_mb_s.append(decimal_text(status.rates.write_bytes_per_second / 1_000_000).as_str());
    let cpu_per_io = |rolling: &RollingMetrics, window: Duration| -> (cell: Option<u64>)
        ensures
            cell == rolling@.cpu_us_per_io(window),
        { rolling.cpu_us_per_io_over(window) };
    StatusLine {
        vm: trim(instance.id.as_str()),
        thr: status.thread_count,
        iops: format_cells(
            [
                Some(status.rates.read_iops),
                Some(status.rates.write_iops),
                Some(status.rates.other_iops),
            ],
        ),
        iops_1_5_15m: format_cells(iops_windows),
        bw_mb_s,
        cpu: format_cells(
            [
                Some(status.cpu.avg_pct),
                Some(status.cpu.median_pct),
                Some(status.cpu.total_pct),
            ],
        ),
        cpu_us_per_io_1_5_15m: format_1_5_15(&status.rolling, cpu_per_io),
    }
}

/// The places of a fleet, by the names of the VMs there.
fn name_order(fleet: &Vec<Instance>) -> (order: Vec<usize>)
    ensures
        in_name_order(fleet@, order@),
{
    let mut order: Vec<usize> = Vec::new();
    let mut i: usize = 0;
    assert(fleet@.take(0) == Seq::<Instance>::empty());
    while i < fleet.len()
        invariant
            i <= fleet@.len(),
            in_name_order(fleet@.take(i as int), order@),
        decreases fleet@.len() - i,
    {
        let ghost done = fleet@.take(i as int);
        let ghost before = order@;
        let mut at: usize = order.len();
        while at > 0 && !text_at_or_before(
            fleet[order[at - 1]].id.as_str(),
            fleet[i].id.as_str(),
        )
            invariant
                at <= order@.len(),
                i < fleet@.len(),
                order@ == before,
                done == fleet@.take(i as int),
                in_name_order(done, before),
                forall|j: int|
                    at <= j < before.len() ==> !text_le(
                        fleet@[(#[trigger] before[j]) as int].id@,
                        fleet@[i as int].id@,
                    ),
            decreases at,
        {
            at -= 1;
        }
        proof {
            let here = fleet@[i as int].id@;
            assert forall|j: int| 0 <= j < at implies text_le(
                fleet@[(#[trigger] before[j]) as int].id@,
                here,
            ) by {
                if j < at - 1 {
                    lemma_text_le_transitive(
                        fleet@[before[j] as int].id@,
                        fleet@[before[at - 1] as int].id@,
                        here,
                    );
                }
            }
            assert forall|j: int| at <= j < before.len() implies text_le(
                here,
                fleet@[(#[trigger] before[j]) as int].id@,
            ) by {
                lemma_text_le_total(here, fleet@[before[j] as int].id@);
            }
        }
        order.insert(at, i);
        assert(in_name_order(fleet@.take(i + 1), order@));
        i += 1;
    }
    assert(fleet@.take(fleet@.len() as int) == fleet@);
    order
}

/// Add one VM's rate over a window to the rate of those before it.
fn add_rate(so_far: Option<u64>, rate: Option<u64>) -> (r: Option<u64>)
    ensures
        r == match (so_far, rate) {
            (Some(sum), Some(more)) => Some(capped(sum as nat + more as nat)),
            (Some(sum), None) => Some(sum),
            (None, _) => rate,
        },
{
    match (so_far, rate) {
        (Some(sum), Some(more)) => Some(sum.saturating_add(more)),
        (Some(sum), None) => Some(sum),
        (None, _) => rate,
    }
}

proof fn lemma_rate_grows(fleet: Seq<Instance>, i: int, window: Duration)
    requires
        0 <= i < fleet.len(),
    ensures
        fleet_iops(fleet.take(i + 1), window) == match (
            fleet_iops(fleet.take(i), window),
            fleet[i].status.rolling@.iops(window),
        ) {
            (Some(sum), Some(more)) => Some(capped(sum as nat + more as nat)),
            (Some(sum), None) => Some(sum),
            (None, rate) => rate,
        },
{
    let before = fleet.take(i);
    let after = fleet.take(i + 1);
    assert(after.drop_last() == before);
    assert(after.last() == fleet[i]);
    if has_rate(before, window) {
        let j = choose|j: int|
            0 <= j < before.len() && (#[trigger] before[j]).status.rolling@.iops(window) is Some;
        assert(after[j].status.rolling@.iops(window) is Some);
    } else {
        lemma_no_rate(before, window);
    }
    if fleet[i].status.rolling@.iops(window) is Some {
        assert(after[i].status.rolling@.iops(window) is Some);
        lemma_capped_add(fleet_rate(before, window), fleet[i].status.rolling@.iops(window)->0);
    } else if has_rate(after, window) {
        let j = choose|j: int|
            0 <= j < after.len() && (#[trigger] after[j]).status.rolling@.iops(window) is Some;
        assert(before[j].status.rolling@.iops(window) is Some);
    }
}

proof fn lemma_no_rate(fleet: Seq<Instance>, window: Duration)
    requires
        !has_rate(fleet, window),
    ensures
        fleet_rate(fleet, window) == 0,
    decreases fleet.len(),
{
    if fleet.len() > 0 {
        let rest = fleet.drop_last();
        if has_rate(rest, window) {
            let j = choose|j: int|
                0 <= j < rest.len() && (#[trigger] rest[j]).status.rolling@.iops(window) is Some;
            assert(fleet[j].status.rolling@.iops(window) is Some);
        }
        lemma_no_rate(rest, window);
        assert(!(fleet[fleet.len() - 1].status.rolling@.iops(window) is Some));
    }
}

proof fn lemma_threads_grow(fleet: Seq<Instance>, i: int)
    requires
        0 <= i <= fleet.len(),
    ensures
        fleet_threads(fleet.take(i)) <= fleet_threads(fleet),
    decreases fleet.len() - i,
{
    if i < fleet.len() {
        lemma_threads_grow(fleet, i + 1);
        assert(fleet.take(i + 1).drop_last() == fleet.take(i));
    } else {
        assert(fleet.take(i) == fleet);
    }
}

/// Make the record about all VMs together.
fn aggregate_line(instances: &Vec<Instance>) -> (line: AggregateLine)
    requires
        fleet_threads(instances@) <= u64::MAX,
    ensures
        line.shows(instances@),
{
    let ghost fleet = instances@;
    let mut total_threads: u64 = 0;
    let mut first: Option<u64> = None;
    let mut second: Option<u64> = None;
    let mut third: Option<u64> = None;
    let mut i: usize = 0;
    assert(fleet.take(0) == Seq::<Instance>::empty());
    while i < instances.len()
        invariant
            i <= fleet.len(),
            instances@ == fleet,
            fleet_threads(fleet) <= u64::MAX,
            total_threads == fleet_threads(fleet.take(i as int)),
            first == fleet_iops(fleet.take(i as int), window_minutes(0)),
            second == fleet_iops(fleet.take(i as int), window_minutes(1)),
            third == fleet_iops(fleet.take(i as int), window_minutes(2)),
        decreases fleet.len() - i,
    {
        proof {
            lemma_threads_grow(fleet, i + 1);
            assert(fleet.take(i + 1).drop_last() == fleet.take(i as int));
            lemma_rate_grows(fleet, i as int, window_minutes(0));
            lemma_rate_grows(fleet, i as int, window_minutes(1));
            lemma_rate_grows(fleet, i as int, window_minutes(2));
        }
        let cells = iops_windows(&instances[i].status.rolling);
        first = add_rate(first, cells[0]);
        second = add_rate(second, cells[1]);
        third = add_rate(third, cells[2]);
        total_threads += instances[i].status.thread_count as u64;
        i += 1;
    }
    assert(fleet.take(fleet.len() as int) == fleet);
    AggregateLine {
        tracked_vms: instances.len(),
        total_threads,
        iops_1_5_15m: format_cells([first, second, third]),
    }
}

/// Make the configured per-VM and aggregate status records. VMs stand in the order
/// of their names.
pub fn emit_status_lines(cfg: &Config, instances: &Vec<Instance>) -> (report: StatusReport)
    requires
        fleet_threads(instances@) <= u64::MAX,
    ensures
        !cfg.enable_per_vm_status_line ==> report.lines@.len() == 0,
        cfg.enable_per_vm_status_line ==> exists|order: Seq<usize>| #[trigger]
            in_name_order(instances@, order) && report.lines@.len() == order.len() && forall|i: int|
                0 <= i < order.len() ==> (#[trigger] report.lines@[i]).shows(
                    instances@[order[i] as int],
                ),
        report.aggregate is Some <==> cfg.enable_aggregate_status_line,
        report.aggregate matches Some(line) ==> line.shows(instances@),
{
    let mut lines: Vec<StatusLine> = Vec::new();
    if cfg.enable_per_vm_status_line {
        let order: Vec<usize> = name_order(instances);
        let mut i: usize = 0;
        while i < order.len()
            invariant
                i <= order@.len(),
                in_name_order(instances@, order@),
                lines@.len() == i,
                forall|j: int|
                    0 <= j < i ==> (#[trigger] lines@[j]).shows(instances@[order@[j] as int]),
            decreases order@.len() - i,
        {
            let instance = &instances[order[i]];
            let cells = iops_windows(&instance.status.rolling);
            assert(cells@[0] == instance.status.rolling@.iops(window_minutes(0)));
            assert(cells@[1] == instance.status.rolling@.iops(window_minutes(1)));
            assert(cells@[2] == instance.status.rolling@.iops(window_minutes(2)));
            lines.push(emit_instance_status(instance, cells));
            i += 1;
        }
        assert(in_name_order(instances@, order@));
    }
    let aggregate: Option<AggregateLine> = if cfg.enable_aggregate_status_line {
        Some(aggregate_line(instances))
    } else {
        None
    };
    StatusReport { lines, aggregate }
}

/// An order lists every place of the fleet.
proof fn lemma_order_lists_every_place(fleet: Seq<Instance>, order: Seq<usize>, place: usize)
    requires
        in_name_order(fleet, order),
        place < fleet.len(),
    ensures
        order.contains(place),
{
    let places = order.map_values(|p: usize| p as int);
    let range = set_int_range(0, fleet.len() as int);
    lemma_int_range(0, fleet.len() as int);
    assert(places.no_duplicates());
    places.unique_seq_to_set();
    assert(places.to_set().subset_of(range)) by {
        assert forall|p: int| places.to_set().contains(p) implies range.contains(p) by {
            let i = choose|i: int| 0 <= i < places.len() && places[i] == p;
            assert(places[i] == order[i] as int);
        }
    }
    seq_to_set_is_finite(places);
    lemma_subset_equality(places.to_set(), range);
    assert(places.to_set().contains(place as int));
    let i = choose|i: int| 0 <= i < places.len() && places[i] == place as int;
    assert(order[i] == place);
}

/// The order of a report is the only one: where no two VMs have the same name, two
/// orders by name are the same.
pub proof fn law_name_order_is_unique(fleet: Seq<Instance>, one: Seq<usize>, other: Seq<usize>)
    requires
        distinct(fleet),
        in_name_order(fleet, one),
        in_name_order(fleet, other),
    ensures
        one == other,
{
    lemma_orders_agree(fleet, one, other, fleet.len() as int);
    assert(one == other);
}

proof fn lemma_orders_agree(fleet: Seq<Instance>, one: Seq<usize>, other: Seq<usize>, n: int)
    requires
        distinct(fleet),
        in_name_order(fleet, one),
        in_name_order(fleet, other),
        0 <= n <= fleet.len(),
    ensures
        forall|k: int| 0 <= k < n ==> #[trigger] one[k] == other[k],
    decreases n,
{
    if n > 0 {
        let k = n - 1;
        lemma_orders_agree(fleet, one, other, k);
        lemma_order_lists_every_place(fleet, other, one[k]);
        lemma_order_lists_every_place(fleet, one, other[k]);
        let m = choose|m: int| 0 <= m < other.len() && other[m] == one[k];
        let w = choose|w: int| 0 <= w < one.len() && one[w] == other[k];
        if one[k] != other[k] {
            assert(m > k) by {
                if m < k {
                    assert(one[m] == other[m]);
                    assert(one[m] != one[k]);
                }
            }
            assert(w > k) by {
                if w < k {
                    assert(one[w] == other[w]);
                    assert(other[w] != other[k]);
                }
            }
            assert(text_le(fleet[other[k] as int].id@, fleet[other[m] as int].id@));
            assert(text_le(fleet[one[k] as int].id@, fleet[one[w] as int].id@));
            lemma_text_le_antisymmetric(fleet[one[k] as int].id@, fleet[other[k] as int].id@);
            let x = one[k] as int;
            let y = other[k] as int;
            if x < y {
                assert(fleet[x].id@ != fleet[y].id@);
            } else {
                assert(fleet[y].id@ != fleet[x].id@);
            }
        }
    }
}

/// A status line tells of its VM: its name without white space around it, its workers,
/// its rates, whole megabytes per second, its CPU figures, and its history over one,
/// five and fifteen minutes.
pub proof fn law_line_tells_of_its_vm(line: StatusLine, instance: Instance)
    requires
        line.shows(instance),
    ensures
        line.vm@ == trimmed(instance.id@),
        line.thr == instance.status.thread_count,
        pieces(line.iops@) == seq![
            decimal(instance.status.rates.read_iops as nat),
            decimal(instance.status.rates.write_iops as nat),
            decimal(instance.status.rates.other_iops as nat),
        ],
        pieces(line.cpu@) == seq![
            decimal(instance.status.cpu.avg_pct as nat),
            decimal(instance.status.cpu.median_pct as nat),
            decimal(instance.status.cpu.total_pct as nat),
        ],
        ({
            let read = pieces(line.bw_mb_s@)[0];
            let write = pieces(line.bw_mb_s@)[1];
            let rates = instance.status.rates;
            &&& pieces(line.bw_mb_s@).len() == 2
            &&& number_of(read) * 1_000_000 <= rates.read_bytes_per_second < (number_of(read) + 1)
                * 1_000_000
            &&& number_of(write) * 1_000_000 <= rates.write_bytes_per_second < (number_of(write)
                + 1) * 1_000_000
        }),
        ({
            let minute = Duration { nanos: 60_000_000_000 };
            let five = Duration { nanos: 300_000_000_000 };
            let fifteen = Duration { nanos: 900_000_000_000 };
            let history = instance.status.rolling@;
            &&& pieces(line.iops_1_5_15m@) == seq![
                cell_text(history.iops(minute)),
                cell_text(history.iops(five)),
                cell_text(history.iops(fifteen)),
            ]
            &&& pieces(line.cpu_us_per_io_1_5_15m@) == seq![
                cell_text(history.cpu_us_per_io(minute)),
                cell_text(history.cpu_us_per_io(five)),
                cell_text(history.cpu_us_per_io(fifteen)),
            ]
        }),
{
    let rates = instance.status.rates;
    let cpu = instance.status.cpu;
    let history = instance.status.rolling@;
    law_cells_are_parted_by_slashes(
        Some(rates.read_iops),
        Some(rates.write_iops),
        Some(rates.other_iops),
    );
    law_cells_are_parted_by_slashes(
        Some(cpu.avg_pct),
        Some(cpu.median_pct),
        Some(cpu.total_pct),
    );
    law_cells_are_parted_by_slashes(
        history.iops(window_minutes(0)),
        history.iops(window_minutes(1)),
        history.iops(window_minutes(2)),
    );
    law_cells_are_parted_by_slashes(
        history.cpu_us_per_io(window_minutes(0)),
        history.cpu_us_per_io(window_minutes(1)),
        history.cpu_us_per_io(window_minutes(2)),
    );
    let read = (rates.read_bytes_per_second / 1_000_000) as u64;
    let write = (rates.write_bytes_per_second / 1_000_000) as u64;
    law_cell_reads_back(Some(read));
    law_cell_reads_back(Some(write));
    law_slash_free_text_is_one_piece(decimal(read as nat));
    law_text_after_a_slash_is_a_piece(decimal(read as nat), decimal(write as nat));
}

/// The workers of two fleets together are those of each added up, and those of one VM
/// are its own.
pub proof fn law_workers_are_added_up(one: Seq<Instance>, other: Seq<Instance>)
    ensures
        fleet_threads(Seq::<Instance>::empty()) == 0,
        one.len() == 1 ==> fleet_threads(one) == one[0].status.thread_count,
        fleet_threads(one + other) == fleet_threads(one) + fleet_threads(other),
    decreases other.len(),
{
    reveal_with_fuel(fleet_threads, 2);
    if one.len() == 1 {
        assert(one.drop_last() == Seq::<Instance>::empty());
    }
    if other.len() == 0 {
        assert(one + other == one);
    } else {
        law_workers_are_added_up(one, other.drop_last());
        assert((one + other).drop_last() == one + other.drop_last());
    }
}

/// The rate of a fleet over a window: one VM's is its own; one more VM with a rate adds
/// it, up to the largest counter, and one without changes nothing. An empty fleet has
/// none.
pub proof fn law_rates_are_added_up(fleet: Seq<Instance>, instance: Instance, window: Duration)
    ensures
        fleet_iops(Seq::<Instance>::empty(), window) is None,
        ({
            let before = fleet_iops(fleet, window);
            let more = instance.status.rolling@.iops(window);
            let after = fleet_iops(fleet.push(instance), window);
            &&& before is None ==> after == more
            &&& more is None ==> after == before
            &&& before is Some && more is Some ==> after == Some(
                stopped_sum(before->0, more->0),
            )
        }),
{
    let grown = fleet.push(instance);
    assert(grown.take(fleet.len() as int) == fleet);
    assert(grown.take((fleet.len() + 1) as int) == grown);
    lemma_rate_grows(grown, fleet.len() as int, window);
}

/// The aggregate line tells of the fleet: how many VMs, how many workers, and the rate
/// over one, five and fifteen minutes.
pub proof fn law_aggregate_tells_of_the_fleet(line: AggregateLine, fleet: Seq<Instance>)
    requires
        line.shows(fleet),
    ensures
        line.tracked_vms == fleet.len(),
        line.total_threads == fleet_threads(fleet),
        pieces(line.iops_1_5_15m@) == seq![
            cell_text(fleet_iops(fleet, (Duration { nanos: 60_000_000_000 }))),
            cell_text(fleet_iops(fleet, (Duration { nanos: 300_000_000_000 }))),
            cell_text(fleet_iops(fleet, (Duration { nanos: 900_000_000_000 }))),
        ],
{
    law_cells_are_parted_by_slashes(
        fleet_iops(fleet, window_minutes(0)),
        fleet_iops(fleet, window_minutes(1)),
        fleet_iops(fleet, window_minutes(2)),
    );
}

/// An order by name lists every VM once, and no VM before one whose name comes earlier.
pub proof fn law_name_order_lists_every_vm(fleet: Seq<Instance>, order: Seq<usize>, i: int)
    requires
        in_name_order(fleet, order),
        0 <= i < fleet.len(),
        i <= usize::MAX,
    ensures
        order.len() == fleet.len(),
        order.contains(i as usize),
        order.no_duplicates(),
        forall|a: int, b: int|
            0 <= a < b < order.len() ==> text_le(
                fleet[(#[trigger] order[a]) as int].id@,
                fleet[(#[trigger] order[b]) as int].id@,
            ),
{
    lemma_order_lists_every_place(fleet, order, i as usize);
}

} // verus!
