//! A schedule: the rows as they were read, and the blocks and duties that
//! they form.
//!
//! Blocks and duties are derived from the rows anew whenever they are asked
//! for, so what a caller gets always agrees with the rows as they are then.
//! The fields `blocks` and `duties` only keep what was derived last.

use crate::models::block::Block;
use crate::models::duty::Duty;
use crate::models::ids::{
    collect_group, collect_ids, first_value, first_value_of, is_id_count, is_id_list, occurs,
    rows_with_key,
    select_group, RowKey,
};
use crate::models::row_seq::{
    count_in_class, count_rows, rows_in_class, select_rows, targets, total_duration, RowClass,
};
use crate::models::schedule_row::ScheduleRow;
use crate::models::time_order::{sort_by_start, sorted_by_start};
use crate::text::{has_id, lemma_strictly_sorted_unique, str_eq};
use vstd::prelude::*;

verus! {

/// Where a schedule came from.
#[derive(Debug)]
pub struct ScheduleMetadata {
    /// The name of the file it was read from.
    pub source_file: Option<String>,
    /// The schedule's name.
    pub name: Option<String>,
    /// First day of service.
    pub start_date: Option<String>,
    /// Last day of service.
    pub end_date: Option<String>,
    /// The operating company.
    pub operator: Option<String>,
    /// The columns that the fields were read from: field and column.
    pub column_mapping: Option<Vec<(String, String)>>,
}

impl Default for ScheduleMetadata {
    fn default() -> (r: Self)
        ensures
            r.source_file is None,
            r.name is None,
            r.start_date is None,
            r.end_date is None,
            r.operator is None,
            r.column_mapping is None,
    {
        ScheduleMetadata {
            source_file: None,
            name: None,
            start_date: None,
            end_date: None,
            operator: None,
            column_mapping: None,
        }
    }
}

/// Figures that sum up a schedule.
#[derive(Debug)]
pub struct ScheduleSummary {
    pub total_rows: usize,
    pub revenue_trips: usize,
    pub deadheads: usize,
    pub breaks_and_reliefs: usize,
    pub unique_blocks: usize,
    pub unique_runs: usize,
    pub unique_depots: usize,
}

/// The blocks of a schedule, in rising order of their identifiers.
#[derive(Debug)]
pub struct BlockMap {
    pub entries: Vec<Block>,
}

/// The duties of a schedule, in rising order of their identifiers.
#[derive(Debug)]
pub struct DutyMap {
    pub entries: Vec<Duty>,
}

/// A schedule.
#[derive(Debug)]
pub struct Schedule {
    /// The rows, in the order they were read.
    pub rows: Vec<ScheduleRow>,
    /// The blocks as they were derived last.
    pub blocks: Option<BlockMap>,
    /// The duties as they were derived last.
    pub duties: Option<DutyMap>,
    /// Where the schedule came from.
    pub metadata: ScheduleMetadata,
}

/// Whether `block` is the block that `rows` form under its identifier: it
/// holds the rows of that block in the order of their start times, and its
/// depot and vehicle are those of the first row that names them.
pub open spec fn is_block_of(block: Block, rows: Seq<ScheduleRow>) -> bool {
    let group = rows_with_key(rows, RowKey::Block, block.block_id@);
    &&& block.rows@ == sorted_by_start(group)
    &&& block.depot == first_value(group, RowKey::Depot)
    &&& block.vehicle_class == first_value(group, RowKey::VehicleClass)
    &&& block.vehicle_type == first_value(group, RowKey::VehicleType)
}

/// The identifiers of `blocks`, in their order.
pub open spec fn block_ids_of(blocks: Seq<Block>) -> Seq<String> {
    Seq::new(blocks.len(), |k: int| blocks[k].block_id)
}

/// Whether `blocks` are the blocks that `rows` form: one for each block
/// identifier that occurs, in rising order of the identifiers.
pub open spec fn are_blocks_of(blocks: Seq<Block>, rows: Seq<ScheduleRow>) -> bool {
    &&& is_id_list(block_ids_of(blocks), rows, RowKey::Block)
    &&& forall|k: int| 0 <= k < blocks.len() ==> is_block_of(#[trigger] blocks[k], rows)
}

/// Whether `duty` is the duty that `rows` form under its identifier. A row
/// belongs to the duty that it names, and to the duty of its run number
/// where it names none.
pub open spec fn is_duty_of(duty: Duty, rows: Seq<ScheduleRow>) -> bool {
    let group = rows_with_key(rows, RowKey::Duty, duty.duty_id@);
    &&& duty.rows@ == sorted_by_start(group)
    &&& duty.run_number == first_value(group, RowKey::Run)
    &&& duty.depot == first_value(group, RowKey::Depot)
    &&& duty.sign_on_time is None
    &&& duty.sign_off_time is None
}

/// The identifiers of `duties`, in their order.
pub open spec fn duty_ids_of(duties: Seq<Duty>) -> Seq<String> {
    Seq::new(duties.len(), |k: int| duties[k].duty_id)
}

/// Whether `duties` are the duties that `rows` form.
pub open spec fn are_duties_of(duties: Seq<Duty>, rows: Seq<ScheduleRow>) -> bool {
    &&& is_id_list(duty_ids_of(duties), rows, RowKey::Duty)
    &&& forall|k: int| 0 <= k < duties.len() ==> is_duty_of(#[trigger] duties[k], rows)
}

/// Two derivations from the same rows give the same blocks: the same
/// identifiers in the same order, under each the same rows in the same
/// order, the same depot and vehicle, and so the same figures.
pub proof fn lemma_blocks_determined(a: Seq<Block>, b: Seq<Block>, rows: Seq<ScheduleRow>)
    requires
        are_blocks_of(a, rows),
        are_blocks_of(b, rows),
    ensures
        a.len() == b.len(),
        forall|k: int|
            0 <= k < a.len() ==> {
                &&& (#[trigger] a[k]).block_id@ == b[k].block_id@
                &&& a[k].rows@ == b[k].rows@
                &&& a[k].depot == b[k].depot
                &&& a[k].vehicle_class == b[k].vehicle_class
                &&& a[k].vehicle_type == b[k].vehicle_type
                &&& a[k].spec_duration() == b[k].spec_duration()
                &&& count_in_class(a[k].rows@, RowClass::Revenue) == count_in_class(
                    b[k].rows@,
                    RowClass::Revenue,
                )
                &&& total_duration(a[k].rows@, RowClass::Revenue) == total_duration(
                    b[k].rows@,
                    RowClass::Revenue,
                )
                &&& total_duration(a[k].rows@, RowClass::Deadhead) == total_duration(
                    b[k].rows@,
                    RowClass::Deadhead,
                )
            },
{
    lemma_strictly_sorted_unique(block_ids_of(a), block_ids_of(b));
    assert forall|k: int| 0 <= k < a.len() implies {
        &&& (#[trigger] a[k]).block_id@ == b[k].block_id@
        &&& a[k].rows@ == b[k].rows@
        &&& a[k].depot == b[k].depot
        &&& a[k].vehicle_class == b[k].vehicle_class
        &&& a[k].vehicle_type == b[k].vehicle_type
    } by {
        assert(block_ids_of(a)[k]@ == block_ids_of(b)[k]@);
        assert(is_block_of(a[k], rows));
        assert(is_block_of(b[k], rows));
    }
}

/// Two derivations from the same rows give the same duties: the same
/// identifiers in the same order, under each the same rows in the same
/// order, and so the same figures and pieces of work.
pub proof fn lemma_duties_determined(a: Seq<Duty>, b: Seq<Duty>, rows: Seq<ScheduleRow>)
    requires
        are_duties_of(a, rows),
        are_duties_of(b, rows),
    ensures
        a.len() == b.len(),
        forall|k: int|
            0 <= k < a.len() ==> {
                &&& (#[trigger] a[k]).duty_id@ == b[k].duty_id@
                &&& a[k].rows@ == b[k].rows@
                &&& a[k].run_number == b[k].run_number
                &&& a[k].depot == b[k].depot
                &&& a[k].sign_on_time == b[k].sign_on_time
                &&& a[k].sign_off_time == b[k].sign_off_time
                &&& a[k].spec_duration() == b[k].spec_duration()
                &&& total_duration(a[k].rows@, RowClass::Driving) == total_duration(
                    b[k].rows@,
                    RowClass::Driving,
                )
                &&& total_duration(a[k].rows@, RowClass::BreakOrRelief) == total_duration(
                    b[k].rows@,
                    RowClass::BreakOrRelief,
                )
                &&& crate::models::duty::piece_rows(a[k].rows@) == crate::models::duty::piece_rows(
                    b[k].rows@,
                )
            },
{
    lemma_strictly_sorted_unique(duty_ids_of(a), duty_ids_of(b));
    assert forall|k: int| 0 <= k < a.len() implies {
        &&& (#[trigger] a[k]).duty_id@ == b[k].duty_id@
        &&& a[k].rows@ == b[k].rows@
        &&& a[k].run_number == b[k].run_number
        &&& a[k].depot == b[k].depot
        &&& a[k].sign_on_time == b[k].sign_on_time
        &&& a[k].sign_off_time == b[k].sign_off_time
    } by {
        assert(duty_ids_of(a)[k]@ == duty_ids_of(b)[k]@);
        assert(is_duty_of(a[k], rows));
        assert(is_duty_of(b[k], rows));
    }
}

/// The number of different identifiers is the same however they are listed.
pub proof fn lemma_id_count_determined(
    n: usize,
    m: usize,
    rows: Seq<ScheduleRow>,
    key: RowKey,
)
    requires
        is_id_count(n, rows, key),
        is_id_count(m, rows, key),
    ensures
        n == m,
{
    let a = choose|ids: Seq<String>| is_id_list(ids, rows, key) && ids.len() == n;
    let b = choose|ids: Seq<String>| is_id_list(ids, rows, key) && ids.len() == m;
    lemma_strictly_sorted_unique(a, b);
}

/// The blocks that the rows form.
pub fn group_blocks(rows: &Vec<ScheduleRow>) -> (r: Vec<Block>)
    ensures
        are_blocks_of(r@, rows@),
{
    let ids = collect_ids(rows, RowKey::Block);
    let mut blocks: Vec<Block> = Vec::new();
    let mut i: usize = 0;
    while i < ids.len()
        invariant
            i <= ids.len(),
            blocks@.len() == i,
            forall|k: int| 0 <= k < i ==> (#[trigger] blocks@[k]).block_id == ids@[k],
            forall|k: int| 0 <= k < i ==> is_block_of(#[trigger] blocks@[k], rows@),
        decreases ids.len() - i,
    {
        let id = ids[i].clone();
        let mut group = collect_group(rows, RowKey::Block, id.as_str());
        let depot = first_value_of(&group, RowKey::Depot);
        let vehicle_class = first_value_of(&group, RowKey::VehicleClass);
        let vehicle_type = first_value_of(&group, RowKey::VehicleType);
        sort_by_start(&mut group);
        blocks.push(Block { block_id: id, rows: group, depot, vehicle_class, vehicle_type });
        i = i + 1;
    }
    proof {
        assert(block_ids_of(blocks@) =~= ids@);
    }
    blocks
}

/// The duties that the rows form.
pub fn group_duties(rows: &Vec<ScheduleRow>) -> (r: Vec<Duty>)
    ensures
        are_duties_of(r@, rows@),
{
    let ids = collect_ids(rows, RowKey::Duty);
    let mut duties: Vec<Duty> = Vec::new();
    let mut i: usize = 0;
    while i < ids.len()
        invariant
            i <= ids.len(),
            duties@.len() == i,
            forall|k: int| 0 <= k < i ==> (#[trigger] duties@[k]).duty_id == ids@[k],
            forall|k: int| 0 <= k < i ==> is_duty_of(#[trigger] duties@[k], rows@),
        decreases ids.len() - i,
    {
        let id = ids[i].clone();
        let mut group = collect_group(rows, RowKey::Duty, id.as_str());
        let run_number = first_value_of(&group, RowKey::Run);
        let depot = first_value_of(&group, RowKey::Depot);
        sort_by_start(&mut group);
        duties.push(
            Duty {
                duty_id: id,
                rows: group,
                run_number,
                depot,
                sign_on_time: None,
                sign_off_time: None,
            },
        );
        i = i + 1;
    }
    proof {
        assert(duty_ids_of(duties@) =~= ids@);
    }
    duties
}

impl BlockMap {
    /// Whether a block has the identifier `id`.
    pub open spec fn spec_contains(&self, id: Seq<char>) -> bool {
        exists|k: int| 0 <= k < self.entries@.len() && (#[trigger] self.entries@[k]).block_id@ == id
    }

    /// The number of blocks.
    pub fn len(&self) -> (r: usize)
        ensures
            r == self.entries@.len(),
    {
        self.entries.len()
    }

    /// Whether there is no block.
    pub fn is_empty(&self) -> (r: bool)
        ensures
            r == (self.entries@.len() == 0),
    {
        self.entries.len() == 0
    }

    /// The first block with the identifier `block_id`.
    pub fn get(&self, block_id: &str) -> (r: Option<&Block>)
        ensures
            r is Some <==> self.spec_contains(block_id@),
            r is Some ==> r.unwrap().block_id@ == block_id@ && exists|k: int|
                0 <= k < self.entries@.len() && #[trigger] self.entries@[k] == *r.unwrap()
                    && forall|j: int| 0 <= j < k ==> (#[trigger] self.entries@[j]).block_id@
                    != block_id@,
    {
        let mut i: usize = 0;
        while i < self.entries.len()
            invariant
                i <= self.entries.len(),
                forall|k: int| 0 <= k < i ==> (#[trigger] self.entries@[k]).block_id@ != block_id@,
            decreases self.entries.len() - i,
        {
            if str_eq(self.entries[i].block_id.as_str(), block_id) {
                assert(self.entries@[i as int] == self.entries[i as int]);
                return Some(&self.entries[i]);
            }
            i = i + 1;
        }
        None
    }

    /// Whether a block has the identifier `block_id`.
    pub fn contains_key(&self, block_id: &str) -> (r: bool)
        ensures
            r == self.spec_contains(block_id@),
    {
        self.get(block_id).is_some()
    }
}

impl DutyMap {
    /// Whether a duty has the identifier `id`.
    pub open spec fn spec_contains(&self, id: Seq<char>) -> bool {
        exists|k: int| 0 <= k < self.entries@.len() && (#[trigger] self.entries@[k]).duty_id@ == id
    }

    /// The number of duties.
    pub fn len(&self) -> (r: usize)
        ensures
            r == self.entries@.len(),
    {
        self.entries.len()
    }

    /// Whether there is no duty.
    pub fn is_empty(&self) -> (r: bool)
        ensures
            r == (self.entries@.len() == 0),
    {
        self.entries.len() == 0
    }

    /// The first duty with the identifier `duty_id`.
    pub fn get(&self, duty_id: &str) -> (r: Option<&Duty>)
        ensures
            r is Some <==> self.spec_contains(duty_id@),
            r is Some ==> r.unwrap().duty_id@ == duty_id@ && exists|k: int|
                0 <= k < self.entries@.len() && #[trigger] self.entries@[k] == *r.unwrap()
                    && forall|j: int| 0 <= j < k ==> (#[trigger] self.entries@[j]).duty_id@
                    != duty_id@,
    {
        let mut i: usize = 0;
        while i < self.entries.len()
            invariant
                i <= self.entries.len(),
                forall|k: int| 0 <= k < i ==> (#[trigger] self.entries@[k]).duty_id@ != duty_id@,
            decreases self.entries.len() - i,
        {
            if str_eq(self.entries[i].duty_id.as_str(), duty_id) {
                assert(self.entries@[i as int] == self.entries[i as int]);
                return Some(&self.entries[i]);
            }
            i = i + 1;
        }
        None
    }

    /// Whether a duty has the identifier `duty_id`.
    pub fn contains_key(&self, duty_id: &str) -> (r: bool)
        ensures
            r == self.spec_contains(duty_id@),
    {
        self.get(duty_id).is_some()
    }
}

impl Schedule {
    /// Whether the schedule is `before` with nothing changed but what was
    /// derived last.
    pub open spec fn same_rows_as(&self, before: &Schedule) -> bool {
        &&& self.rows == before.rows
        &&& self.metadata == before.metadata
    }

    /// A schedule without rows, and with nothing known of where it came from.
    pub fn new() -> (r: Self)
        ensures
            r.rows@.len() == 0,
            r.blocks is None,
            r.duties is None,
            r.metadata.source_file is None,
            r.metadata.name is None,
            r.metadata.start_date is None,
            r.metadata.end_date is None,
            r.metadata.operator is None,
            r.metadata.column_mapping is None,
    {
        Schedule {
            rows: Vec::new(),
            blocks: None,
            duties: None,
            metadata: ScheduleMetadata::default(),
        }
    }

    /// A schedule of the rows `rows`.
    pub fn from_rows(rows: Vec<ScheduleRow>) -> (r: Self)
        ensures
            r.rows == rows,
            r.blocks is None,
            r.duties is None,
            r.metadata.source_file is None,
            r.metadata.name is None,
            r.metadata.start_date is None,
            r.metadata.end_date is None,
            r.metadata.operator is None,
            r.metadata.column_mapping is None,
    {
        Schedule { rows, blocks: None, duties: None, metadata: ScheduleMetadata::default() }
    }

    /// The number of rows.
    pub fn len(&self) -> (r: usize)
        ensures
            r == self.rows@.len(),
    {
        self.rows.len()
    }

    /// Whether the schedule has no rows.
    pub fn is_empty(&self) -> (r: bool)
        ensures
            r == (self.rows@.len() == 0),
    {
        self.rows.len() == 0
    }

    /// The revenue trips, in their order.
    pub fn revenue_trips(&self) -> (r: Vec<&ScheduleRow>)
        ensures
            targets(r@) == rows_in_class(self.rows@, RowClass::Revenue),
    {
        select_rows(&self.rows, RowClass::Revenue)
    }

    /// The deadhead rows, in their order.
    pub fn deadheads(&self) -> (r: Vec<&ScheduleRow>)
        ensures
            targets(r@) == rows_in_class(self.rows@, RowClass::Deadhead),
    {
        select_rows(&self.rows, RowClass::Deadhead)
    }

    /// The rows of the block `block_id`, in their order.
    pub fn rows_for_block(&self, block_id: &str) -> (r: Vec<&ScheduleRow>)
        ensures
            targets(r@) == rows_with_key(self.rows@, RowKey::Block, block_id@),
    {
        select_group(&self.rows, RowKey::Block, block_id)
    }

    /// The rows of the run `run_number`, in their order.
    pub fn rows_for_run(&self, run_number: &str) -> (r: Vec<&ScheduleRow>)
        ensures
            targets(r@) == rows_with_key(self.rows@, RowKey::Run, run_number@),
    {
        select_group(&self.rows, RowKey::Run, run_number)
    }

    /// The block identifiers, each once, in rising order.
    pub fn block_ids(&self) -> (r: Vec<String>)
        ensures
            is_id_list(r@, self.rows@, RowKey::Block),
    {
        collect_ids(&self.rows, RowKey::Block)
    }

    /// The run numbers, each once, in rising order.
    pub fn run_numbers(&self) -> (r: Vec<String>)
        ensures
            is_id_list(r@, self.rows@, RowKey::Run),
    {
        collect_ids(&self.rows, RowKey::Run)
    }

    /// The depot codes, each once, in rising order.
    pub fn depots(&self) -> (r: Vec<String>)
        ensures
            is_id_list(r@, self.rows@, RowKey::Depot),
    {
        collect_ids(&self.rows, RowKey::Depot)
    }

    /// The trips of the revenue rows, each once, in rising order.
    pub fn trip_ids(&self) -> (r: Vec<String>)
        ensures
            is_id_list(r@, self.rows@, RowKey::RevenueTrip),
    {
        collect_ids(&self.rows, RowKey::RevenueTrip)
    }

    /// Derives the blocks from the rows as they are now. A row without a
    /// block identifier belongs to no block.
    pub fn derive_blocks(&mut self)
        ensures
            final(self).same_rows_as(old(self)),
            final(self).duties == old(self).duties,
            final(self).blocks is Some,
            are_blocks_of(final(self).blocks.unwrap().entries@, old(self).rows@),
    {
        let blocks = group_blocks(&self.rows);
        self.blocks = Some(BlockMap { entries: blocks });
    }

    /// The blocks that the rows form, derived from the rows as they are now.
    pub fn blocks(&mut self) -> (r: &BlockMap)
        ensures
            final(self).same_rows_as(old(self)),
            final(self).duties == old(self).duties,
            final(self).blocks == Some(*r),
            are_blocks_of(r.entries@, old(self).rows@),
    {
        self.derive_blocks();
        self.blocks.as_ref().unwrap()
    }

    /// The block `block_id`, derived from the rows as they are now; `None`
    /// where no row names it.
    pub fn get_block(&mut self, block_id: &str) -> (r: Option<&Block>)
        ensures
            final(self).same_rows_as(old(self)),
            final(self).duties == old(self).duties,
            r is Some <==> occurs(old(self).rows@, RowKey::Block, block_id@),
            r is Some ==> r.unwrap().block_id@ == block_id@ && is_block_of(
                *r.unwrap(),
                old(self).rows@,
            ),
    {
        self.derive_blocks();
        let map = self.blocks.as_ref().unwrap();
        let found = map.get(block_id);
        proof {
            let ids = block_ids_of(map.entries@);
            if map.spec_contains(block_id@) {
                let k = choose|k: int|
                    0 <= k < map.entries@.len() && (#[trigger] map.entries@[k]).block_id@
                        == block_id@;
                assert(ids[k]@ == block_id@);
                assert(has_id(ids, block_id@));
            }
            if has_id(ids, block_id@) {
                let k = choose|k: int| 0 <= k < ids.len() && #[trigger] ids[k]@ == block_id@;
                assert(map.entries@[k].block_id@ == block_id@);
            }
        }
        found
    }

    /// Derives the duties from the rows as they are now. A row belongs to
    /// the duty it names, else to the duty of its run number, else to none.
    pub fn derive_duties(&mut self)
        ensures
            final(self).same_rows_as(old(self)),
            final(self).blocks == old(self).blocks,
            final(self).duties is Some,
            are_duties_of(final(self).duties.unwrap().entries@, old(self).rows@),
    {
        let duties = group_duties(&self.rows);
        self.duties = Some(DutyMap { entries: duties });
    }

    /// The duties that the rows form, derived from the rows as they are now.
    pub fn duties(&mut self) -> (r: &DutyMap)
        ensures
            final(self).same_rows_as(old(self)),
            final(self).blocks == old(self).blocks,
            final(self).duties == Some(*r),
            are_duties_of(r.entries@, old(self).rows@),
    {
        self.derive_duties();
        self.duties.as_ref().unwrap()
    }

    /// The duty `duty_id`, derived from the rows as they are now.
    pub fn get_duty(&mut self, duty_id: &str) -> (r: Option<&Duty>)
        ensures
            final(self).same_rows_as(old(self)),
            final(self).blocks == old(self).blocks,
            r is Some <==> occurs(old(self).rows@, RowKey::Duty, duty_id@),
            r is Some ==> r.unwrap().duty_id@ == duty_id@ && is_duty_of(
                *r.unwrap(),
                old(self).rows@,
            ),
    {
        self.derive_duties();
        let map = self.duties.as_ref().unwrap();
        let found = map.get(duty_id);
        proof {
            let ids = duty_ids_of(map.entries@);
            if map.spec_contains(duty_id@) {
                let k = choose|k: int|
                    0 <= k < map.entries@.len() && (#[trigger] map.entries@[k]).duty_id@
                        == duty_id@;
                assert(ids[k]@ == duty_id@);
                assert(has_id(ids, duty_id@));
            }
            if has_id(ids, duty_id@) {
                let k = choose|k: int| 0 <= k < ids.len() && #[trigger] ids[k]@ == duty_id@;
                assert(map.entries@[k].duty_id@ == duty_id@);
            }
        }
        found
    }

    /// Adds a row behind the others and forgets what was derived before.
    pub fn add_row(&mut self, row: ScheduleRow)
        ensures
            final(self).rows@ == old(self).rows@.push(row),
            final(self).blocks is None,
            final(self).duties is None,
            final(self).metadata == old(self).metadata,
    {
        self.rows.push(row);
        self.blocks = None;
        self.duties = None;
    }

    /// The figures that sum up the schedule.
    pub fn summary(&self) -> (r: ScheduleSummary)
        ensures
            r.total_rows == self.rows@.len(),
            r.revenue_trips == count_in_class(self.rows@, RowClass::Revenue),
            r.deadheads == count_in_class(self.rows@, RowClass::Deadhead),
            r.breaks_and_reliefs == count_in_class(self.rows@, RowClass::BreakOrRelief),
            is_id_count(r.unique_blocks, self.rows@, RowKey::Block),
            is_id_count(r.unique_runs, self.rows@, RowKey::Run),
            is_id_count(r.unique_depots, self.rows@, RowKey::Depot),
    {
        let blocks = self.block_ids();
        let runs = self.run_numbers();
        let depots = self.depots();
        ScheduleSummary {
            total_rows: self.rows.len(),
            revenue_trips: count_rows(&self.rows, RowClass::Revenue),
            deadheads: count_rows(&self.rows, RowClass::Deadhead),
            breaks_and_reliefs: count_rows(&self.rows, RowClass::BreakOrRelief),
            unique_blocks: blocks.len(),
            unique_runs: runs.len(),
            unique_depots: depots.len(),
        }
    }
}

} // verus!
