//! Deterministic node-id scheme: every element of the dashboard has a
//! fixed id, so that updates can find the nodes they change.
use vstd::prelude::*;

verus! {

// Well-known structural ids.
pub const ROOT: u64 = 1;
pub const HEADER: u64 = 2;
pub const BODY: u64 = 3;
pub const STATUS_BAR: u64 = 4;

// Sidebar (10-19).
pub const SIDEBAR: u64 = 10;
/// Nav item backgrounds: 11..=16.
pub const NAV_ITEM_BASE: u64 = 11;
/// Nav item text labels: 60..=65.
pub const NAV_TEXT_BASE: u64 = 60;

// Header children (20-29).
pub const HEADER_TITLE: u64 = 20;
pub const HEADER_CLOCK: u64 = 21;
pub const HEADER_HOSTNAME: u64 = 22;
pub const HEADER_LOGO: u64 = 23;

// Status bar children (40-49).
pub const STATUS_REFRESH: u64 = 40;
pub const STATUS_LAST_UPDATE: u64 = 41;
pub const STATUS_CONNECTED: u64 = 42;

// Content area.
pub const CONTENT: u64 = 50;

/// Overview metric cards (100-199): each card owns a block of 10 ids.
pub const CARD_BASE: u64 = 100;

// Offsets within a card block.
pub const CARD_BG: u64 = 0;
pub const CARD_ACCENT_BAR: u64 = 1;
pub const CARD_STATUS_DOT: u64 = 2;
pub const CARD_LABEL: u64 = 3;
pub const CARD_VALUE: u64 = 4;
pub const CARD_BAR_TRACK: u64 = 5;
pub const CARD_BAR_FILL: u64 = 6;
pub const CARD_FOOTER_LEFT: u64 = 7;
pub const CARD_FOOTER_RIGHT: u64 = 8;

// Overview per-core grid (300-399).
pub const CORE_SECTION: u64 = 300;
pub const CORE_TITLE: u64 = 301;
/// Each core owns 3 ids: label, track, fill.
pub const CORE_ITEM_BASE: u64 = 310;

// Overview top processes (400-499).
pub const PROC_SECTION: u64 = 400;
pub const PROC_TITLE: u64 = 401;
pub const PROC_HEADER_ROW: u64 = 402;
/// Each process row owns 4 ids: name, cpu, mem, separator.
pub const PROC_ROW_BASE: u64 = 410;

// Sparklines (9000-9199): 60 bars each.
pub const SPARK_CPU_SECTION: u64 = 9000;
pub const SPARK_CPU_BASE: u64 = 9010;
pub const SPARK_MEM_SECTION: u64 = 9100;
pub const SPARK_MEM_BASE: u64 = 9110;

// Overview system info (500-599).
pub const SYSINFO_SECTION: u64 = 500;
pub const SYSINFO_TITLE: u64 = 501;
pub const SYSINFO_LINE1: u64 = 502;
pub const SYSINFO_LINE2: u64 = 503;

/// Base id of the card at `index`.
pub open spec fn spec_card_base(index: int) -> int {
    CARD_BASE + index * 10
}

/// Id of slot `slot` (0 label, 1 track, 2 fill) of core `core`.
pub open spec fn spec_core_id(core: int, slot: int) -> int {
    CORE_ITEM_BASE + core * 3 + slot
}

/// Id of column `col` (0 name, 1 cpu, 2 mem) of process row `row`.
pub open spec fn spec_proc_id(row: int, col: int) -> int {
    PROC_ROW_BASE + row * 4 + col
}

/// Base id of the card at `index` (0-based).
pub fn card_base(index: u64) -> (id: u64)
    requires
        spec_card_base(index as int) <= u64::MAX,
    ensures
        id == spec_card_base(index as int),
{
    CARD_BASE + index * 10
}

/// Id of the label of core `core_idx` in the overview grid.
pub fn core_label(core_idx: u64) -> (id: u64)
    requires
        spec_core_id(core_idx as int, 0) <= u64::MAX,
    ensures
        id == spec_core_id(core_idx as int, 0),
{
    CORE_ITEM_BASE + core_idx * 3
}

/// Id of the bar track of core `core_idx` in the overview grid.
pub fn core_track(core_idx: u64) -> (id: u64)
    requires
        spec_core_id(core_idx as int, 1) <= u64::MAX,
    ensures
        id == spec_core_id(core_idx as int, 1),
{
    CORE_ITEM_BASE + core_idx * 3 + 1
}

/// Id of the bar fill of core `core_idx` in the overview grid.
pub fn core_fill(core_idx: u64) -> (id: u64)
    requires
        spec_core_id(core_idx as int, 2) <= u64::MAX,
    ensures
        id == spec_core_id(core_idx as int, 2),
{
    CORE_ITEM_BASE + core_idx * 3 + 2
}

/// Id of the name cell of top-process row `row`.
pub fn proc_name(row: u64) -> (id: u64)
    requires
        spec_proc_id(row as int, 0) <= u64::MAX,
    ensures
        id == spec_proc_id(row as int, 0),
{
    PROC_ROW_BASE + row * 4
}

/// Id of the CPU cell of top-process row `row`.
pub fn proc_cpu(row: u64) -> (id: u64)
    requires
        spec_proc_id(row as int, 1) <= u64::MAX,
    ensures
        id == spec_proc_id(row as int, 1),
{
    PROC_ROW_BASE + row * 4 + 1
}

/// Id of the memory cell of top-process row `row`.
pub fn proc_mem(row: u64) -> (id: u64)
    requires
        spec_proc_id(row as int, 2) <= u64::MAX,
    ensures
        id == spec_proc_id(row as int, 2),
{
    PROC_ROW_BASE + row * 4 + 2
}

/// Card blocks never overlap: two slots of the 10-id blocks of two
/// cards coincide only when the cards and the offsets are the same.
pub proof fn lemma_card_blocks_disjoint(i: int, a: int, j: int, b: int)
    requires
        0 <= i,
        0 <= j,
        0 <= a < 10,
        0 <= b < 10,
    ensures
        spec_card_base(i) + a == spec_card_base(j) + b <==> (i == j && a == b),
{
    if spec_card_base(i) + a == spec_card_base(j) + b {
        assert((i - j) * 10 == b - a) by (nonlinear_arith)
            requires spec_card_base(i) + a == spec_card_base(j) + b;
        assert(i == j) by (nonlinear_arith)
            requires (i - j) * 10 == b - a, -10 < b - a < 10;
    }
}

/// The label, track and fill ids of all cores are pairwise distinct.
pub proof fn lemma_core_ids_distinct(c1: int, s1: int, c2: int, s2: int)
    requires
        0 <= c1,
        0 <= c2,
        0 <= s1 < 3,
        0 <= s2 < 3,
    ensures
        spec_core_id(c1, s1) == spec_core_id(c2, s2) <==> (c1 == c2 && s1 == s2),
{
    if spec_core_id(c1, s1) == spec_core_id(c2, s2) {
        assert((c1 - c2) * 3 == s2 - s1) by (nonlinear_arith)
            requires spec_core_id(c1, s1) == spec_core_id(c2, s2);
        assert(c1 == c2) by (nonlinear_arith)
            requires (c1 - c2) * 3 == s2 - s1, -3 < s2 - s1 < 3;
    }
}

/// The cells of all process rows (4 ids per row) are pairwise distinct.
pub proof fn lemma_proc_ids_distinct(r1: int, k1: int, r2: int, k2: int)
    requires
        0 <= r1,
        0 <= r2,
        0 <= k1 < 4,
        0 <= k2 < 4,
    ensures
        spec_proc_id(r1, k1) == spec_proc_id(r2, k2) <==> (r1 == r2 && k1 == k2),
{
    if spec_proc_id(r1, k1) == spec_proc_id(r2, k2) {
        assert((r1 - r2) * 4 == k2 - k1) by (nonlinear_arith)
            requires spec_proc_id(r1, k1) == spec_proc_id(r2, k2);
        assert(r1 == r2) by (nonlinear_arith)
            requires (r1 - r2) * 4 == k2 - k1, -4 < k2 - k1 < 4;
    }
}

/// The first 10 card blocks lie in 100..=199, the first 30 cores in
/// 310..=399 and the first 22 process rows in 410..=499, so the three
/// overview sections never share an id.
pub proof fn lemma_overview_ranges(card: int, off: int, core: int, slot: int, row: int, col: int)
    requires
        0 <= card < 10,
        0 <= off < 10,
        0 <= core < 30,
        0 <= slot < 3,
        0 <= row < 22,
        0 <= col < 4,
    ensures
        100 <= spec_card_base(card) + off < 200,
        CORE_ITEM_BASE <= spec_core_id(core, slot) < 400,
        PROC_ROW_BASE <= spec_proc_id(row, col) < 500,
{
}

/// Card blocks follow the card index: the first card starts at 100 and
/// every next card starts 10 ids further.
pub proof fn lemma_card_base_steps(i: int)
    requires
        0 <= i,
    ensures
        spec_card_base(0) == 100,
        spec_card_base(i + 1) == spec_card_base(i) + 10,
        spec_card_base(i) == 100 + 10 * i,
{
}

/// The ids of the core grid are consecutive from 310 in the order core 0
/// label, track, fill, core 1 label, track, fill, ...
pub proof fn lemma_core_ids_consecutive(core: int, slot: int)
    requires
        0 <= core,
        0 <= slot < 2,
    ensures
        spec_core_id(0, 0) == 310,
        spec_core_id(core, slot + 1) == spec_core_id(core, slot) + 1,
        spec_core_id(core + 1, 0) == spec_core_id(core, 2) + 1,
        spec_core_id(core, 0) == 310 + 3 * core,
{
}

/// The ids of the process rows are consecutive from 410 in the order
/// name, cpu, mem (and one spare id) per row.
pub proof fn lemma_proc_ids_consecutive(row: int, col: int)
    requires
        0 <= row,
        0 <= col < 3,
    ensures
        spec_proc_id(0, 0) == 410,
        spec_proc_id(row, col + 1) == spec_proc_id(row, col) + 1,
        spec_proc_id(row + 1, 0) == spec_proc_id(row, 0) + 4,
        spec_proc_id(row, 0) == 410 + 4 * row,
{
}

} // verus!
