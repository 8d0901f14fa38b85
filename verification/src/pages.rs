use vstd::prelude::*;

verus! {

/// Page identifiers, in the order of the sidebar navigation.
#[derive(Debug, Clone, Copy, PartialEq, Eq, Structural)]
pub enum Page {
    Overview,
    Cpu,
    Memory,
    Processes,
    Network,
    Disks,
}

/// Position of a page in the sidebar (0-based).
pub open spec fn page_index(p: Page) -> nat {
    match p {
        Page::Overview => 0,
        Page::Cpu => 1,
        Page::Memory => 2,
        Page::Processes => 3,
        Page::Network => 4,
        Page::Disks => 5,
    }
}

/// The page at a sidebar position; every position past the last page
/// falls back to the overview.
pub open spec fn page_at(i: nat) -> Page {
    if i == 1 {
        Page::Cpu
    } else if i == 2 {
        Page::Memory
    } else if i == 3 {
        Page::Processes
    } else if i == 4 {
        Page::Network
    } else if i == 5 {
        Page::Disks
    } else {
        Page::Overview
    }
}

impl Page {
    /// Number of pages.
    pub const COUNT: usize = 6;

    /// The page at index `i`; out-of-range indices give `Page::Overview`.
    pub fn from_index(i: u8) -> (p: Page)
        ensures
            p == page_at(i as nat),
    {
        match i {
            0 => Page::Overview,
            1 => Page::Cpu,
            2 => Page::Memory,
            3 => Page::Processes,
            4 => Page::Network,
            5 => Page::Disks,
            _ => Page::Overview,
        }
    }

    /// The sidebar index of this page.
    pub fn index(self) -> (i: u8)
        ensures
            i as nat == page_index(self),
            i < Page::COUNT,
    {
        match self {
            Page::Overview => 0,
            Page::Cpu => 1,
            Page::Memory => 2,
            Page::Processes => 3,
            Page::Network => 4,
            Page::Disks => 5,
        }
    }
}

/// Every page is found again from its own index.
pub proof fn lemma_page_index_roundtrip(p: Page)
    ensures
        page_at(page_index(p)) == p,
        page_index(p) < Page::COUNT,
{
}

/// Every in-range index names a page whose index it is; every index
/// out of range names the overview.
pub proof fn lemma_index_page_roundtrip(i: nat)
    ensures
        i < Page::COUNT ==> page_index(page_at(i)) == i,
        i >= Page::COUNT ==> page_at(i) == Page::Overview,
{
}

/// Distinct pages have distinct indices.
pub proof fn lemma_page_index_injective(p: Page, q: Page)
    ensures
        page_index(p) == page_index(q) ==> p == q,
{
}

/// The pages are numbered in sidebar order: Overview, CPU, Memory,
/// Processes, Network, Disks.
pub proof fn lemma_sidebar_order()
    ensures
        page_index(Page::Overview) == 0,
        page_index(Page::Cpu) == 1,
        page_index(Page::Memory) == 2,
        page_index(Page::Processes) == 3,
        page_index(Page::Network) == 4,
        page_index(Page::Disks) == 5,
        page_at(0) == Page::Overview,
        page_at(1) == Page::Cpu,
        page_at(2) == Page::Memory,
        page_at(3) == Page::Processes,
        page_at(4) == Page::Network,
        page_at(5) == Page::Disks,
{
}

} // verus!
