//! Sparse page tables for the numerical consumer of Boolean-selected paged KV.
//!
//! A Boolean selection names surviving logical pages of a paged KV cache. The
//! numerical paged table stays authoritative: a selection is frozen into a
//! sparse descriptor table only after every page is checked against it, and
//! selected pages keep their original logical page numbers.
use crate::attention_shape::FlatAttentionError;
use crate::research_structural_wgpu::DeviceDispatchLimits;
use vstd::prelude::*;

verus! {

/// Portable descriptor capacity of the bounded uniform table.
pub const BOOLEAN_SELECTED_PAGED_MAX_PAGES: usize = 256;

#[derive(Debug, Clone, Copy, PartialEq, Eq, Structural)]
pub struct BooleanSelectedPagedDescriptor {
    pub physical_page: usize,
    pub logical_page: usize,
    pub live_tokens: usize,
}

/// One surviving page of a Boolean selection.
#[derive(Debug, Clone, Copy, PartialEq, Eq, Structural)]
pub struct BooleanSelectedKvPage {
    pub logical_page: usize,
    pub physical_page: usize,
    pub live_tokens: usize,
}

/// A Boolean selection of surviving pages, with the table snapshot it was
/// taken from.
#[derive(Debug, Clone, PartialEq, Eq)]
pub struct BooleanIndexedKvSelection {
    pub generation: u64,
    pub live_tokens: usize,
    pub mapped_pages: usize,
    pub selected_pages: Vec<BooleanSelectedKvPage>,
}

/// What the authoritative numerical paged table reports: its generation,
/// live length, mapped pages, page geometry, and for each logical page the
/// physical page holding its first token, if any.
#[derive(Debug, PartialEq, Eq)]
pub struct PagedKvTableSnapshot {
    generation: u64,
    live_tokens: usize,
    mapped_pages: usize,
    page_size: usize,
    physical_pages: usize,
    page_map: Vec<Option<usize>>,
}

#[derive(Debug, Clone, PartialEq)]
#[non_exhaustive]
pub enum BooleanSelectedPagedDecodeError {
    Core(FlatAttentionError),
    EmptySelection,
    TooManySelectedPages { actual: usize, maximum: usize },
    GenerationMismatch { selection_generation: u64, table_generation: u64 },
    SnapshotMismatch {
        selection_live_tokens: usize,
        table_live_tokens: usize,
        selection_mapped_pages: usize,
        table_mapped_pages: usize,
    },
    LogicalPageOutOfRange { logical_page: usize, mapped_pages: usize },
    NonIncreasingLogicalPages { previous: usize, current: usize },
    MissingAuthoritativePage { logical_page: usize },
    PhysicalPageMismatch {
        logical_page: usize,
        selected_physical_page: usize,
        authoritative_physical_page: usize,
    },
    PhysicalPageOutOfRange { physical_page: usize, physical_pages: usize },
    LiveTokenMismatch {
        logical_page: usize,
        selected_live_tokens: usize,
        authoritative_live_tokens: usize,
    },
    InvalidHeadGrouping { q_heads: usize, kv_heads: usize },
    UnsupportedHeadDim { actual: usize, maximum: usize },
    InvalidTheta(u32),
    CausalVisibilityMismatch { query_position: usize, full_kv_len: usize },
    IndexSpaceExceeded { elements: usize },
    DispatchLimit { actual: usize, maximum: u32 },
    BufferTooSmall { tensor: &'static str, actual_bytes: u64, required_bytes: u64 },
    StorageBindingTooLarge { tensor: &'static str, required_bytes: u64, maximum_bytes: u64 },
    UniformBindingTooLarge { required_bytes: u64, maximum_bytes: u64 },
    PipelineValidation(String),
}

impl PagedKvTableSnapshot {
    #[verifier::type_invariant]
    spec fn paged(self) -> bool {
        &&& self.page_size > 0
        &&& self.mapped_pages == pages_for(self.live_tokens, self.page_size)
    }

    /// Every snapshot maps exactly the pages its live tokens fill.
    pub closed spec fn spec_covers_live_tokens(self) -> bool {
        self.mapped_pages == pages_for(self.live_tokens, self.page_size)
    }

    pub closed spec fn spec_generation(self) -> u64 {
        self.generation
    }

    pub closed spec fn spec_live_tokens(self) -> usize {
        self.live_tokens
    }

    pub closed spec fn spec_mapped_pages(self) -> usize {
        self.mapped_pages
    }

    pub closed spec fn spec_page_size(self) -> usize {
        self.page_size
    }

    pub closed spec fn spec_physical_pages(self) -> usize {
        self.physical_pages
    }

    /// The physical page holding the first token of `logical_page`, if mapped.
    pub closed spec fn spec_address(self, logical_page: int) -> Option<usize> {
        if 0 <= logical_page < self.page_map@.len() {
            self.page_map@[logical_page]
        } else {
            None
        }
    }

    /// A snapshot of a table with pages of `page_size > 0` tokens whose
    /// mapped pages are exactly the pages its live tokens fill.
    pub fn new(
        generation: u64,
        live_tokens: usize,
        mapped_pages: usize,
        page_size: usize,
        physical_pages: usize,
        page_map: Vec<Option<usize>>,
    ) -> (snapshot: Option<Self>)
        ensures
            (page_size == 0 || mapped_pages != pages_for(live_tokens, page_size)) <==> snapshot
                is None,
            snapshot matches Some(s) ==> {
                &&& s.spec_generation() == generation
                &&& s.spec_live_tokens() == live_tokens
                &&& s.spec_mapped_pages() == mapped_pages
                &&& s.spec_page_size() == page_size
                &&& s.spec_physical_pages() == physical_pages
                &&& forall|p: int|
                    #![trigger s.spec_address(p)]
                    s.spec_address(p) == if 0 <= p < page_map@.len() {
                        page_map@[p]
                    } else {
                        None
                    }
            },
    {
        if page_size == 0 {
            return None;
        }
        let whole = live_tokens / page_size;
        proof {
            vstd::arithmetic::div_mod::lemma_fundamental_div_mod(live_tokens as int, page_size as int);
            if live_tokens % page_size != 0 {
                assert(whole < live_tokens) by (nonlinear_arith)
                    requires
                        live_tokens == page_size * whole + live_tokens % page_size,
                        live_tokens % page_size > 0,
                        page_size >= 2 || live_tokens % page_size == 0,
                ;
            }
        }
        let pages = if live_tokens % page_size == 0 {
            whole
        } else {
            whole + 1
        };
        proof {
            lemma_pages_for(live_tokens, page_size, whole, pages);
        }
        if mapped_pages != pages {
            return None;
        }
        Some(Self { generation, live_tokens, mapped_pages, page_size, physical_pages, page_map })
    }

    fn address(&self, logical_page: usize) -> (physical: Option<usize>)
        ensures
            physical == self.spec_address(logical_page as int),
    {
        if logical_page < self.page_map.len() {
            self.page_map[logical_page]
        } else {
            None
        }
    }
}

impl Clone for PagedKvTableSnapshot {
    fn clone(&self) -> (copy: Self)
        ensures
            copy.spec_generation() == self.spec_generation(),
            copy.spec_live_tokens() == self.spec_live_tokens(),
            copy.spec_mapped_pages() == self.spec_mapped_pages(),
            copy.spec_page_size() == self.spec_page_size(),
            copy.spec_physical_pages() == self.spec_physical_pages(),
    {
        proof {
            use_type_invariant(self);
        }
        Self {
            generation: self.generation,
            live_tokens: self.live_tokens,
            mapped_pages: self.mapped_pages,
            page_size: self.page_size,
            physical_pages: self.physical_pages,
            page_map: self.page_map.clone(),
        }
    }
}

/// Frozen, validated sparse page table derived from a Boolean selection.
#[derive(Debug, PartialEq, Eq)]
pub struct BooleanSelectedPagedKvTable {
    entries: Vec<BooleanSelectedPagedDescriptor>,
    full_live_tokens: usize,
    selected_live_tokens: usize,
    page_size: usize,
    physical_pages: usize,
    generation: u64,
}

/// Live tokens of the first `n` selected pages.
pub open spec fn live_sum(pages: Seq<BooleanSelectedKvPage>, n: int) -> int
    decreases n,
{
    if n <= 0 {
        0
    } else {
        live_sum(pages, n - 1) + pages[n - 1].live_tokens
    }
}

/// Live tokens the authoritative table holds in the page starting at `first_token`.
pub open spec fn page_occupancy(live_tokens: usize, first_token: int, page_size: usize) -> int {
    if live_tokens - first_token <= page_size {
        live_tokens - first_token
    } else {
        page_size as int
    }
}

pub open spec fn decode_failure(e: BooleanSelectedPagedDecodeError) -> Result<
    (),
    BooleanSelectedPagedDecodeError,
> {
    Err(e)
}

/// The checks of one frozen page against the authoritative table, in order:
/// a mapped page, the same physical page, and the exact occupancy.
pub open spec fn authoritative_page_rule(
    table: PagedKvTableSnapshot,
    logical_page: usize,
    physical_page: usize,
    live_tokens: usize,
) -> Result<(), BooleanSelectedPagedDecodeError> {
    let first_token = logical_page * table.spec_page_size();
    if first_token > usize::MAX {
        decode_failure(BooleanSelectedPagedDecodeError::IndexSpaceExceeded { elements: logical_page })
    } else {
        match table.spec_address(logical_page as int) {
            None => decode_failure(
                BooleanSelectedPagedDecodeError::MissingAuthoritativePage { logical_page },
            ),
            Some(authoritative) => if physical_page != authoritative {
                decode_failure(
                    BooleanSelectedPagedDecodeError::PhysicalPageMismatch {
                        logical_page,
                        selected_physical_page: physical_page,
                        authoritative_physical_page: authoritative,
                    },
                )
            } else if first_token > table.spec_live_tokens() {
                decode_failure(
                    BooleanSelectedPagedDecodeError::IndexSpaceExceeded {
                        elements: first_token as usize,
                    },
                )
            } else if live_tokens != page_occupancy(
                table.spec_live_tokens(),
                first_token,
                table.spec_page_size(),
            ) {
                decode_failure(
                    BooleanSelectedPagedDecodeError::LiveTokenMismatch {
                        logical_page,
                        selected_live_tokens: live_tokens,
                        authoritative_live_tokens: page_occupancy(
                            table.spec_live_tokens(),
                            first_token,
                            table.spec_page_size(),
                        ) as usize,
                    },
                )
            } else {
                Ok(())
            },
        }
    }
}

/// The checks of selected page `i`, in order.
pub open spec fn selected_page_rule(
    pages: Seq<BooleanSelectedKvPage>,
    table: PagedKvTableSnapshot,
    i: int,
) -> Result<(), BooleanSelectedPagedDecodeError> {
    let page = pages[i];
    if page.logical_page >= table.spec_mapped_pages() {
        decode_failure(
            BooleanSelectedPagedDecodeError::LogicalPageOutOfRange {
                logical_page: page.logical_page,
                mapped_pages: table.spec_mapped_pages(),
            },
        )
    } else if i > 0 && page.logical_page <= pages[i - 1].logical_page {
        decode_failure(
            BooleanSelectedPagedDecodeError::NonIncreasingLogicalPages {
                previous: pages[i - 1].logical_page,
                current: page.logical_page,
            },
        )
    } else if authoritative_page_rule(table, page.logical_page, page.physical_page, page.live_tokens)
        is Err {
        authoritative_page_rule(table, page.logical_page, page.physical_page, page.live_tokens)
    } else if page.physical_page >= table.spec_physical_pages() {
        decode_failure(
            BooleanSelectedPagedDecodeError::PhysicalPageOutOfRange {
                physical_page: page.physical_page,
                physical_pages: table.spec_physical_pages(),
            },
        )
    } else if live_sum(pages, i) + page.live_tokens > usize::MAX {
        decode_failure(
            BooleanSelectedPagedDecodeError::IndexSpaceExceeded { elements: live_sum(pages, i) as usize },
        )
    } else {
        Ok(())
    }
}

/// The first failing page check among the first `n` selected pages.
pub open spec fn first_page_failure(
    pages: Seq<BooleanSelectedKvPage>,
    table: PagedKvTableSnapshot,
    n: int,
) -> Result<(), BooleanSelectedPagedDecodeError>
    decreases n,
{
    if n <= 0 {
        Ok(())
    } else if first_page_failure(pages, table, n - 1) is Err {
        first_page_failure(pages, table, n - 1)
    } else {
        selected_page_rule(pages, table, n - 1)
    }
}

/// Why a selection cannot be frozen against `table`, first failure first.
pub open spec fn selection_rule(
    selection: BooleanIndexedKvSelection,
    table: PagedKvTableSnapshot,
) -> Result<(), BooleanSelectedPagedDecodeError> {
    let pages = selection.selected_pages@;
    if selection.generation != table.spec_generation() {
        decode_failure(
            BooleanSelectedPagedDecodeError::GenerationMismatch {
                selection_generation: selection.generation,
                table_generation: table.spec_generation(),
            },
        )
    } else if selection.live_tokens != table.spec_live_tokens() || selection.mapped_pages
        != table.spec_mapped_pages() {
        decode_failure(
            BooleanSelectedPagedDecodeError::SnapshotMismatch {
                selection_live_tokens: selection.live_tokens,
                table_live_tokens: table.spec_live_tokens(),
                selection_mapped_pages: selection.mapped_pages,
                table_mapped_pages: table.spec_mapped_pages(),
            },
        )
    } else if pages.len() == 0 {
        decode_failure(BooleanSelectedPagedDecodeError::EmptySelection)
    } else if pages.len() > BOOLEAN_SELECTED_PAGED_MAX_PAGES {
        decode_failure(
            BooleanSelectedPagedDecodeError::TooManySelectedPages {
                actual: pages.len() as usize,
                maximum: BOOLEAN_SELECTED_PAGED_MAX_PAGES,
            },
        )
    } else {
        first_page_failure(pages, table, pages.len() as int)
    }
}

pub open spec fn descriptor_of(page: BooleanSelectedKvPage) -> BooleanSelectedPagedDescriptor {
    BooleanSelectedPagedDescriptor {
        physical_page: page.physical_page,
        logical_page: page.logical_page,
        live_tokens: page.live_tokens,
    }
}

proof fn lemma_page_failure_stops(
    pages: Seq<BooleanSelectedKvPage>,
    table: PagedKvTableSnapshot,
    i: int,
    n: int,
)
    requires
        0 <= i < n,
        first_page_failure(pages, table, i) is Ok,
        selected_page_rule(pages, table, i) is Err,
    ensures
        first_page_failure(pages, table, n) == selected_page_rule(pages, table, i),
    decreases n,
{
    if n > i + 1 {
        lemma_page_failure_stops(pages, table, i, n - 1);
    }
}

/// Check a frozen page against the authoritative table.
fn check_authoritative_page(
    table: &PagedKvTableSnapshot,
    logical_page: usize,
    physical_page: usize,
    live_tokens: usize,
) -> (r: Result<(), BooleanSelectedPagedDecodeError>)
    ensures
        r == authoritative_page_rule(*table, logical_page, physical_page, live_tokens),
{
    let first_token = match logical_page.checked_mul(table.page_size) {
        Some(token) => token,
        None => {
            return Err(BooleanSelectedPagedDecodeError::IndexSpaceExceeded { elements: logical_page })
        },
    };
    let authoritative = match table.address(logical_page) {
        Some(page) => page,
        None => return Err(BooleanSelectedPagedDecodeError::MissingAuthoritativePage { logical_page }),
    };
    if physical_page != authoritative {
        return Err(
            BooleanSelectedPagedDecodeError::PhysicalPageMismatch {
                logical_page,
                selected_physical_page: physical_page,
                authoritative_physical_page: authoritative,
            },
        );
    }
    if first_token > table.live_tokens {
        return Err(BooleanSelectedPagedDecodeError::IndexSpaceExceeded { elements: first_token });
    }
    let remaining = table.live_tokens - first_token;
    let expected = if remaining <= table.page_size {
        remaining
    } else {
        table.page_size
    };
    if live_tokens != expected {
        return Err(
            BooleanSelectedPagedDecodeError::LiveTokenMismatch {
                logical_page,
                selected_live_tokens: live_tokens,
                authoritative_live_tokens: expected,
            },
        );
    }
    Ok(())
}

/// `frozen` holds the selection's pages as descriptors, in order, with the
/// authoritative table's lineage and geometry.
pub open spec fn frozen_from(
    frozen: BooleanSelectedPagedKvTable,
    selection: BooleanIndexedKvSelection,
    table: PagedKvTableSnapshot,
) -> bool {
    &&& frozen.spec_entries() == selection.selected_pages@.map_values(
        |page: BooleanSelectedKvPage| descriptor_of(page),
    )
    &&& frozen.spec_full_live_tokens() == table.spec_live_tokens()
    &&& frozen.spec_selected_live_tokens() == live_sum(
        selection.selected_pages@,
        selection.selected_pages@.len() as int,
    )
    &&& frozen.spec_page_size() == table.spec_page_size()
    &&& frozen.spec_physical_pages() == table.spec_physical_pages()
    &&& frozen.spec_generation() == table.spec_generation()
}

impl BooleanSelectedPagedKvTable {
    #[verifier::type_invariant]
    spec fn paged(self) -> bool {
        self.page_size > 0
    }

    pub closed spec fn spec_entries(self) -> Seq<BooleanSelectedPagedDescriptor> {
        self.entries@
    }

    pub closed spec fn spec_full_live_tokens(self) -> usize {
        self.full_live_tokens
    }

    pub closed spec fn spec_selected_live_tokens(self) -> usize {
        self.selected_live_tokens
    }

    pub closed spec fn spec_page_size(self) -> usize {
        self.page_size
    }

    pub closed spec fn spec_physical_pages(self) -> usize {
        self.physical_pages
    }

    pub closed spec fn spec_generation(self) -> u64 {
        self.generation
    }

    /// Revalidate a selection against the current authoritative numerical
    /// paged table. Stale generation, forged physical mappings, reordered or
    /// duplicated logical pages, and incorrect partial-page occupancy fail closed.
    pub fn from_selection(selection: &BooleanIndexedKvSelection, table: &PagedKvTableSnapshot) -> (r:
        Result<Self, BooleanSelectedPagedDecodeError>)
        ensures
            match selection_rule(*selection, *table) {
                Err(e) => r == Err::<Self, BooleanSelectedPagedDecodeError>(e),
                Ok(()) => r matches Ok(t) && frozen_from(t, *selection, *table),
            },
            r matches Ok(t) ==> revalidation_rule(t, *table) == Ok::<
                (),
                BooleanSelectedPagedDecodeError,
            >(()),
    {
        proof {
            use_type_invariant(table);
        }
        if selection.generation != table.generation {
            return Err(
                BooleanSelectedPagedDecodeError::GenerationMismatch {
                    selection_generation: selection.generation,
                    table_generation: table.generation,
                },
            );
        }
        if selection.live_tokens != table.live_tokens || selection.mapped_pages
            != table.mapped_pages {
            return Err(
                BooleanSelectedPagedDecodeError::SnapshotMismatch {
                    selection_live_tokens: selection.live_tokens,
                    table_live_tokens: table.live_tokens,
                    selection_mapped_pages: selection.mapped_pages,
                    table_mapped_pages: table.mapped_pages,
                },
            );
        }
        let pages = &selection.selected_pages;
        if pages.len() == 0 {
            return Err(BooleanSelectedPagedDecodeError::EmptySelection);
        }
        if pages.len() > BOOLEAN_SELECTED_PAGED_MAX_PAGES {
            return Err(
                BooleanSelectedPagedDecodeError::TooManySelectedPages {
                    actual: pages.len(),
                    maximum: BOOLEAN_SELECTED_PAGED_MAX_PAGES,
                },
            );
        }
        let ghost pre = selection_rule(*selection, *table);
        let mut entries: Vec<BooleanSelectedPagedDescriptor> = Vec::new();
        let mut selected_live_tokens: usize = 0;
        let mut i: usize = 0;
        while i < pages.len()
            invariant
                i <= pages@.len(),
                pages@ == selection.selected_pages@,
                pre == selection_rule(*selection, *table),
                pre == first_page_failure(pages@, *table, pages@.len() as int),
                first_page_failure(pages@, *table, i as int) is Ok,
                selected_live_tokens == live_sum(pages@, i as int),
                entries@ == pages@.subrange(0, i as int).map_values(
                    |page: BooleanSelectedKvPage| descriptor_of(page),
                ),
            decreases pages@.len() - i,
        {
            let page = pages[i];
            let failure = if page.logical_page >= table.mapped_pages {
                Some(
                    BooleanSelectedPagedDecodeError::LogicalPageOutOfRange {
                        logical_page: page.logical_page,
                        mapped_pages: table.mapped_pages,
                    },
                )
            } else if i > 0 && page.logical_page <= pages[i - 1].logical_page {
                Some(
                    BooleanSelectedPagedDecodeError::NonIncreasingLogicalPages {
                        previous: pages[i - 1].logical_page,
                        current: page.logical_page,
                    },
                )
            } else {
                match check_authoritative_page(
                    table,
                    page.logical_page,
                    page.physical_page,
                    page.live_tokens,
                ) {
                    Err(error) => Some(error),
                    Ok(()) => if page.physical_page >= table.physical_pages {
                        Some(
                            BooleanSelectedPagedDecodeError::PhysicalPageOutOfRange {
                                physical_page: page.physical_page,
                                physical_pages: table.physical_pages,
                            },
                        )
                    } else if selected_live_tokens.checked_add(page.live_tokens).is_none() {
                        Some(
                            BooleanSelectedPagedDecodeError::IndexSpaceExceeded {
                                elements: selected_live_tokens,
                            },
                        )
                    } else {
                        None
                    },
                }
            };
            match failure {
                Some(error) => {
                    proof {
                        assert(selected_page_rule(pages@, *table, i as int) == Err::<
                            (),
                            BooleanSelectedPagedDecodeError,
                        >(error));
                        lemma_page_failure_stops(pages@, *table, i as int, pages@.len() as int);
                    }
                    return Err(error);
                },
                None => {},
            }
            selected_live_tokens = selected_live_tokens + page.live_tokens;
            entries.push(
                BooleanSelectedPagedDescriptor {
                    physical_page: page.physical_page,
                    logical_page: page.logical_page,
                    live_tokens: page.live_tokens,
                },
            );
            i += 1;
            proof {
                assert(entries@ =~= pages@.subrange(0, i as int).map_values(
                    |page: BooleanSelectedKvPage| descriptor_of(page),
                ));
            }
        }
        proof {
            assert(pages@.subrange(0, pages@.len() as int) =~= pages@);
            use_type_invariant(table);
        }
        let frozen = Self {
            entries,
            full_live_tokens: table.live_tokens,
            selected_live_tokens,
            page_size: table.page_size,
            physical_pages: table.physical_pages,
            generation: table.generation,
        };
        proof {
            lemma_frozen_table_revalidates(frozen, *selection, *table);
        }
        Ok(frozen)
    }

    pub fn entries(&self) -> (entries: &[BooleanSelectedPagedDescriptor])
        ensures
            entries@ == self.spec_entries(),
    {
        self.entries.as_slice()
    }

    pub fn full_live_tokens(&self) -> (tokens: usize)
        ensures
            tokens == self.spec_full_live_tokens(),
    {
        self.full_live_tokens
    }

    pub fn selected_live_tokens(&self) -> (tokens: usize)
        ensures
            tokens == self.spec_selected_live_tokens(),
    {
        self.selected_live_tokens
    }

    pub fn page_size(&self) -> (size: usize)
        ensures
            size == self.spec_page_size(),
    {
        self.page_size
    }

    pub fn physical_pages(&self) -> (pages: usize)
        ensures
            pages == self.spec_physical_pages(),
    {
        self.physical_pages
    }

    pub fn generation(&self) -> (generation: u64)
        ensures
            generation == self.spec_generation(),
    {
        self.generation
    }
}

/// The checks of the first `n` frozen entries against the authoritative
/// table, first failure first.
pub open spec fn first_entry_failure(
    entries: Seq<BooleanSelectedPagedDescriptor>,
    table: PagedKvTableSnapshot,
    n: int,
) -> Result<(), BooleanSelectedPagedDecodeError>
    decreases n,
{
    if n <= 0 {
        Ok(())
    } else if first_entry_failure(entries, table, n - 1) is Err {
        first_entry_failure(entries, table, n - 1)
    } else {
        authoritative_page_rule(
            table,
            entries[n - 1].logical_page,
            entries[n - 1].physical_page,
            entries[n - 1].live_tokens,
        )
    }
}

/// Pages spanned by `tokens` tokens of `page_size` tokens each.
pub open spec fn pages_for(tokens: usize, page_size: usize) -> int {
    (tokens + page_size - 1) / (page_size as int)
}

/// `pages` computed as whole pages plus a partial one is `pages_for`.
proof fn lemma_pages_for(tokens: usize, page_size: usize, whole: usize, pages: usize)
    requires
        page_size > 0,
        whole == tokens / page_size,
        pages == if tokens % page_size == 0 { whole as int } else { whole + 1 },
    ensures
        pages == pages_for(tokens, page_size),
{
    vstd::arithmetic::div_mod::lemma_fundamental_div_mod(tokens as int, page_size as int);
    let ps = page_size as int;
    let t = tokens as int;
    let w = whole as int;
    let r = t % ps;
    assert((t + ps - 1) == ps * w + (r + ps - 1));
    if r == 0 {
        vstd::arithmetic::div_mod::lemma_fundamental_div_mod_converse(t + ps - 1, ps, w, ps - 1);
    } else {
        assert(ps * (w + 1) == ps * w + ps) by (nonlinear_arith);
        vstd::arithmetic::div_mod::lemma_fundamental_div_mod_converse(t + ps - 1, ps, w + 1, r - 1);
    }
}

/// Whether a frozen table still matches the authoritative table, first
/// failure first.
pub open spec fn revalidation_rule(
    frozen: BooleanSelectedPagedKvTable,
    table: PagedKvTableSnapshot,
) -> Result<(), BooleanSelectedPagedDecodeError> {
    let frozen_mapped_pages = pages_for(frozen.spec_full_live_tokens(), frozen.spec_page_size());
    if frozen.spec_generation() != table.spec_generation() {
        decode_failure(
            BooleanSelectedPagedDecodeError::GenerationMismatch {
                selection_generation: frozen.spec_generation(),
                table_generation: table.spec_generation(),
            },
        )
    } else if frozen.spec_full_live_tokens() != table.spec_live_tokens() || frozen_mapped_pages
        != table.spec_mapped_pages() || frozen.spec_page_size() != table.spec_page_size()
        || frozen.spec_physical_pages() != table.spec_physical_pages() {
        decode_failure(
            BooleanSelectedPagedDecodeError::SnapshotMismatch {
                selection_live_tokens: frozen.spec_full_live_tokens(),
                table_live_tokens: table.spec_live_tokens(),
                selection_mapped_pages: frozen_mapped_pages as usize,
                table_mapped_pages: table.spec_mapped_pages(),
            },
        )
    } else {
        first_entry_failure(frozen.spec_entries(), table, frozen.spec_entries().len() as int)
    }
}

proof fn lemma_entry_failure_stops(
    entries: Seq<BooleanSelectedPagedDescriptor>,
    table: PagedKvTableSnapshot,
    i: int,
    n: int,
)
    requires
        0 <= i < n,
        first_entry_failure(entries, table, i) is Ok,
        authoritative_page_rule(
            table,
            entries[i].logical_page,
            entries[i].physical_page,
            entries[i].live_tokens,
        ) is Err,
    ensures
        first_entry_failure(entries, table, n) == authoritative_page_rule(
            table,
            entries[i].logical_page,
            entries[i].physical_page,
            entries[i].live_tokens,
        ),
    decreases n,
{
    if n > i + 1 {
        lemma_entry_failure_stops(entries, table, i, n - 1);
    }
}

impl BooleanSelectedPagedKvTable {
    /// Revalidate frozen sparse descriptors against the current authoritative
    /// numerical page table immediately before submission.
    pub fn validate_against(&self, table: &PagedKvTableSnapshot) -> (r: Result<
        (),
        BooleanSelectedPagedDecodeError,
    >)
        ensures
            r == revalidation_rule(*self, *table),
    {
        proof {
            use_type_invariant(self);
        }
        let quotient = self.full_live_tokens / self.page_size;
        proof {
            let ps = self.page_size as int;
            let full = self.full_live_tokens as int;
            assert(full % ps != 0 ==> quotient < full) by (nonlinear_arith)
                requires
                    ps > 0,
                    quotient == full / ps,
                    full >= 0,
            {
                if full % ps != 0 {
                    assert(full == quotient * ps + full % ps);
                    assert(ps >= 2);
                }
            }
        }
        let frozen_mapped_pages = if self.full_live_tokens % self.page_size == 0 {
            quotient
        } else {
            quotient + 1
        };
        proof {
            let ps = self.page_size as int;
            let full = self.full_live_tokens as int;
            assert(frozen_mapped_pages == pages_for(self.full_live_tokens, self.page_size))
                by (nonlinear_arith)
                requires
                    ps > 0,
                    quotient == full / ps,
                    frozen_mapped_pages == if full % ps == 0 {
                        quotient as int
                    } else {
                        quotient + 1
                    },
                    pages_for(self.full_live_tokens, self.page_size) == (full + ps - 1) / ps,
            {
                assert(full == quotient * ps + full % ps);
            }
        }
        if self.generation != table.generation {
            return Err(
                BooleanSelectedPagedDecodeError::GenerationMismatch {
                    selection_generation: self.generation,
                    table_generation: table.generation,
                },
            );
        }
        if self.full_live_tokens != table.live_tokens || frozen_mapped_pages != table.mapped_pages
            || self.page_size != table.page_size || self.physical_pages != table.physical_pages {
            return Err(
                BooleanSelectedPagedDecodeError::SnapshotMismatch {
                    selection_live_tokens: self.full_live_tokens,
                    table_live_tokens: table.live_tokens,
                    selection_mapped_pages: frozen_mapped_pages,
                    table_mapped_pages: table.mapped_pages,
                },
            );
        }
        let ghost pre = revalidation_rule(*self, *table);
        let mut i: usize = 0;
        while i < self.entries.len()
            invariant
                i <= self.entries@.len(),
                pre == revalidation_rule(*self, *table),
                pre == first_entry_failure(self.entries@, *table, self.entries@.len() as int),
                first_entry_failure(self.entries@, *table, i as int) is Ok,
            decreases self.entries@.len() - i,
        {
            let entry = self.entries[i];
            match check_authoritative_page(
                table,
                entry.logical_page,
                entry.physical_page,
                entry.live_tokens,
            ) {
                Ok(()) => {},
                Err(error) => {
                    proof {
                        lemma_entry_failure_stops(
                            self.entries@,
                            *table,
                            i as int,
                            self.entries@.len() as int,
                        );
                    }
                    return Err(error);
                },
            }
            i += 1;
        }
        Ok(())
    }
}

impl Clone for BooleanSelectedPagedKvTable {
    fn clone(&self) -> (copy: Self)
        ensures
            copy.spec_entries() == self.spec_entries(),
            copy.spec_full_live_tokens() == self.spec_full_live_tokens(),
            copy.spec_selected_live_tokens() == self.spec_selected_live_tokens(),
            copy.spec_page_size() == self.spec_page_size(),
            copy.spec_physical_pages() == self.spec_physical_pages(),
            copy.spec_generation() == self.spec_generation(),
    {
        proof {
            use_type_invariant(self);
        }
        let entries = self.entries.clone();
        proof {
            assert(entries@ =~= self.entries@);
        }
        Self {
            entries,
            full_live_tokens: self.full_live_tokens,
            selected_live_tokens: self.selected_live_tokens,
            page_size: self.page_size,
            physical_pages: self.physical_pages,
            generation: self.generation,
        }
    }
}

#[derive(Debug, Clone, Copy, PartialEq, Eq, Structural)]
pub struct BooleanSelectedDecodeLayout {
    pub q_elements: usize,
    pub output_elements: usize,
    pub lse_elements: usize,
    pub combined_elements: usize,
    pub q_bytes: u64,
    pub combined_bytes: u64,
}

/// Head grouping and rotary head dimension accepted by the selected decode,
/// first failure first.
pub open spec fn selected_geometry_rule(
    q_heads: usize,
    kv_heads: usize,
    head_dim: usize,
    max_head_dim: usize,
) -> Result<(), BooleanSelectedPagedDecodeError> {
    if q_heads == 0 || kv_heads == 0 || q_heads % kv_heads != 0 {
        decode_failure(BooleanSelectedPagedDecodeError::InvalidHeadGrouping { q_heads, kv_heads })
    } else if head_dim == 0 || head_dim % 2 != 0 {
        decode_failure(
            BooleanSelectedPagedDecodeError::Core(
                FlatAttentionError::InvalidRotaryHeadDim { head_dim },
            ),
        )
    } else if head_dim > max_head_dim {
        decode_failure(
            BooleanSelectedPagedDecodeError::UnsupportedHeadDim {
                actual: head_dim,
                maximum: max_head_dim,
            },
        )
    } else {
        Ok(())
    }
}

fn validate_geometry(q_heads: usize, kv_heads: usize, head_dim: usize, max_head_dim: usize) -> (r:
    Result<(), BooleanSelectedPagedDecodeError>)
    ensures
        r == selected_geometry_rule(q_heads, kv_heads, head_dim, max_head_dim),
{
    if q_heads == 0 || kv_heads == 0 || q_heads % kv_heads != 0 {
        return Err(BooleanSelectedPagedDecodeError::InvalidHeadGrouping { q_heads, kv_heads });
    }
    if head_dim == 0 || head_dim % 2 != 0 {
        return Err(
            BooleanSelectedPagedDecodeError::Core(
                FlatAttentionError::InvalidRotaryHeadDim { head_dim },
            ),
        );
    }
    if head_dim > max_head_dim {
        return Err(
            BooleanSelectedPagedDecodeError::UnsupportedHeadDim {
                actual: head_dim,
                maximum: max_head_dim,
            },
        );
    }
    Ok(())
}

/// Element and byte counts of the single-query decode's Q and O|LSE buffers
/// for `q_heads` heads of `head_dim` features, `head_dim` at most
/// `max_head_dim`.
pub fn selected_decode_layout(q_heads: usize, head_dim: usize, max_head_dim: usize) -> (r: Result<
    BooleanSelectedDecodeLayout,
    BooleanSelectedPagedDecodeError,
>)
    ensures
        selected_geometry_rule(q_heads, 1, head_dim, max_head_dim) is Err ==> r == Err::<
            BooleanSelectedDecodeLayout,
            BooleanSelectedPagedDecodeError,
        >(selected_geometry_rule(q_heads, 1, head_dim, max_head_dim)->Err_0),
        selected_geometry_rule(q_heads, 1, head_dim, max_head_dim) is Ok ==> {
            let q = q_heads * head_dim;
            if 4 * (q + q_heads) > usize::MAX {
                r == Err::<BooleanSelectedDecodeLayout, BooleanSelectedPagedDecodeError>(
                    BooleanSelectedPagedDecodeError::Core(FlatAttentionError::ShapeOverflow),
                )
            } else {
                r == Ok::<BooleanSelectedDecodeLayout, BooleanSelectedPagedDecodeError>(
                    BooleanSelectedDecodeLayout {
                        q_elements: q as usize,
                        output_elements: q as usize,
                        lse_elements: q_heads,
                        combined_elements: (q + q_heads) as usize,
                        q_bytes: (4 * q) as u64,
                        combined_bytes: (4 * (q + q_heads)) as u64,
                    },
                )
            }
        },
{
    validate_geometry(q_heads, 1, head_dim, max_head_dim)?;
    let overflow = BooleanSelectedPagedDecodeError::Core(FlatAttentionError::ShapeOverflow);
    let q_elements = match q_heads.checked_mul(head_dim) {
        Some(q) => q,
        None => return Err(overflow),
    };
    let combined_elements = match q_elements.checked_add(q_heads) {
        Some(c) => c,
        None => return Err(overflow),
    };
    let q_bytes = match q_elements.checked_mul(4) {
        Some(b) => b,
        None => return Err(overflow),
    };
    let combined_bytes = match combined_elements.checked_mul(4) {
        Some(b) => b,
        None => return Err(overflow),
    };
    Ok(
        BooleanSelectedDecodeLayout {
            q_elements,
            output_elements: q_elements,
            lse_elements: q_heads,
            combined_elements,
            q_bytes: q_bytes as u64,
            combined_bytes: combined_bytes as u64,
        },
    )
}

/// Sizes of the caller-owned buffers of one selected decode.
#[derive(Debug, Clone, Copy, PartialEq, Eq, Structural)]
pub struct SelectedDecodeBuffers {
    pub q_bytes: u64,
    pub k_bytes: u64,
    pub v_bytes: u64,
    pub out_and_lse_bytes: u64,
}

/// Everything the host encodes for one selected decode: the geometry, the
/// bytes bound for K and V, the uniform words and the workgroup count (one
/// per query head).
#[derive(Debug, Clone, PartialEq, Eq)]
pub struct SelectedDecodeDispatch {
    pub layout: BooleanSelectedDecodeLayout,
    pub kv_bytes: u64,
    pub params: Vec<u32>,
    pub workgroups: u32,
}

/// Words of the uniform block: sixteen header words, then four per page slot.
pub const SELECTED_DECODE_PARAM_WORDS: usize = 1040;

pub open spec fn selected_buffer_rule(tensor: &'static str, actual: u64, required: int) -> Result<
    (),
    BooleanSelectedPagedDecodeError,
> {
    if actual < required {
        decode_failure(
            BooleanSelectedPagedDecodeError::BufferTooSmall {
                tensor,
                actual_bytes: actual,
                required_bytes: required as u64,
            },
        )
    } else {
        Ok(())
    }
}

pub open spec fn selected_binding_rule(tensor: &'static str, bytes: int, maximum: u64) -> Result<
    (),
    BooleanSelectedPagedDecodeError,
> {
    if bytes > maximum {
        decode_failure(
            BooleanSelectedPagedDecodeError::StorageBindingTooLarge {
                tensor,
                required_bytes: bytes as u64,
                maximum_bytes: maximum,
            },
        )
    } else {
        Ok(())
    }
}

pub open spec fn either(
    first: Result<(), BooleanSelectedPagedDecodeError>,
    second: Result<(), BooleanSelectedPagedDecodeError>,
) -> Result<(), BooleanSelectedPagedDecodeError> {
    if first is Err {
        first
    } else {
        second
    }
}

/// Scalars of the physical K (or V) storage of a frozen table.
pub open spec fn selected_kv_elements(table: BooleanSelectedPagedKvTable, kv_heads: usize, head_dim: usize) -> int {
    (table.spec_physical_pages() * table.spec_page_size()) * (kv_heads * head_dim)
}

/// Every check of one selected decode before its uniform words, in the order
/// the host makes them.
pub open spec fn selected_dispatch_rule(
    table: BooleanSelectedPagedKvTable,
    authoritative: PagedKvTableSnapshot,
    q_heads: usize,
    kv_heads: usize,
    head_dim: usize,
    max_head_dim: usize,
    theta_bits: u32,
    causal: bool,
    q_causal_position: usize,
    buffers: SelectedDecodeBuffers,
    scale_bits: Result<u32, FlatAttentionError>,
    limits: DeviceDispatchLimits,
) -> Result<(), BooleanSelectedPagedDecodeError> {
    let q = q_heads * head_dim;
    let combined = q + q_heads;
    let rows = table.spec_physical_pages() * table.spec_page_size();
    let kv = selected_kv_elements(table, kv_heads, head_dim);
    let storage = limits.max_storage_buffer_binding_size;
    let overflow = BooleanSelectedPagedDecodeError::Core(FlatAttentionError::ShapeOverflow);
    if revalidation_rule(table, authoritative) is Err {
        revalidation_rule(table, authoritative)
    } else if table.spec_entries().len() == 0 || table.spec_selected_live_tokens() == 0 {
        decode_failure(BooleanSelectedPagedDecodeError::EmptySelection)
    } else if table.spec_entries().len() > BOOLEAN_SELECTED_PAGED_MAX_PAGES {
        decode_failure(
            BooleanSelectedPagedDecodeError::TooManySelectedPages {
                actual: table.spec_entries().len() as usize,
                maximum: BOOLEAN_SELECTED_PAGED_MAX_PAGES,
            },
        )
    } else if selected_geometry_rule(q_heads, kv_heads, head_dim, max_head_dim) is Err {
        selected_geometry_rule(q_heads, kv_heads, head_dim, max_head_dim)
    } else if !(0 < theta_bits && theta_bits < 0x7f80_0000) {
        decode_failure(BooleanSelectedPagedDecodeError::InvalidTheta(theta_bits))
    } else if causal && q_causal_position == usize::MAX {
        decode_failure(BooleanSelectedPagedDecodeError::Core(FlatAttentionError::PositionOverflow))
    } else if causal && q_causal_position + 1 < table.spec_full_live_tokens() {
        decode_failure(
            BooleanSelectedPagedDecodeError::CausalVisibilityMismatch {
                query_position: q_causal_position,
                full_kv_len: table.spec_full_live_tokens(),
            },
        )
    } else if 4 * combined > usize::MAX || rows > usize::MAX || kv_heads * head_dim > usize::MAX
        || kv > usize::MAX || 4 * kv > usize::MAX {
        decode_failure(overflow)
    } else if buffers.q_bytes < 4 * q {
        selected_buffer_rule("Q", buffers.q_bytes, 4 * q)
    } else if buffers.k_bytes < 4 * kv {
        selected_buffer_rule("K", buffers.k_bytes, 4 * kv)
    } else if buffers.v_bytes < 4 * kv {
        selected_buffer_rule("V", buffers.v_bytes, 4 * kv)
    } else if buffers.out_and_lse_bytes < 4 * combined {
        selected_buffer_rule("O|LSE", buffers.out_and_lse_bytes, 4 * combined)
    } else if q_heads > limits.max_compute_workgroups_per_dimension {
        decode_failure(
            BooleanSelectedPagedDecodeError::DispatchLimit {
                actual: q_heads,
                maximum: limits.max_compute_workgroups_per_dimension,
            },
        )
    } else if scale_bits is Ok {
        either(
            selected_binding_rule("Q", 4 * q, storage),
            either(
                selected_binding_rule("K", 4 * kv, storage),
                either(
                    selected_binding_rule("V", 4 * kv, storage),
                    selected_binding_rule("O|LSE", 4 * combined, storage),
                ),
            ),
        )
    } else {
        either(
            selected_binding_rule("Q", 4 * q, storage),
            either(
                selected_binding_rule("K", 4 * kv, storage),
                either(
                    selected_binding_rule("V", 4 * kv, storage),
                    either(
                        selected_binding_rule("O|LSE", 4 * combined, storage),
                        decode_failure(BooleanSelectedPagedDecodeError::Core(scale_bits->Err_0)),
                    ),
                ),
            ),
        )
    }
}

/// Field `k` of a descriptor in uniform order.
pub open spec fn descriptor_value(d: BooleanSelectedPagedDescriptor, k: int) -> usize {
    if k == 0 {
        d.physical_page
    } else if k == 1 {
        d.logical_page
    } else if k == 2 {
        d.live_tokens
    } else {
        0usize
    }
}

/// Every value of the uniform block in order, before zero padding.
pub open spec fn selected_param_values(
    table: BooleanSelectedPagedKvTable,
    q_heads: usize,
    kv_heads: usize,
    head_dim: usize,
    scale: u32,
    theta_bits: u32,
    causal: bool,
    q_rope_position: usize,
    q_causal_position: usize,
) -> Seq<usize> {
    let entries = table.spec_entries();
    seq![
        table.spec_full_live_tokens(),
        table.spec_page_size(),
        table.spec_physical_pages(),
        entries.len() as usize,
        table.spec_selected_live_tokens(),
        head_dim,
        q_heads,
        kv_heads,
        scale as usize,
        theta_bits as usize,
        q_rope_position,
        q_causal_position,
        if causal {
            1usize
        } else {
            0usize
        },
        0usize,
        0usize,
        0usize,
    ] + Seq::new(4 * entries.len(), |k: int| descriptor_value(entries[k / 4], k % 4))
}

/// Index of the first value at or after `i` that does not fit in `u32`.
pub open spec fn first_wide_from(values: Seq<usize>, i: int) -> int
    decreases values.len() - i,
{
    if i < 0 || i >= values.len() {
        values.len() as int
    } else if values[i] > u32::MAX {
        i
    } else {
        first_wide_from(values, i + 1)
    }
}

fn selected_buffer(tensor: &'static str, actual: u64, required: u64) -> (r: Result<
    (),
    BooleanSelectedPagedDecodeError,
>)
    ensures
        r == selected_buffer_rule(tensor, actual, required as int),
{
    if actual < required {
        Err(
            BooleanSelectedPagedDecodeError::BufferTooSmall {
                tensor,
                actual_bytes: actual,
                required_bytes: required,
            },
        )
    } else {
        Ok(())
    }
}

fn selected_binding(tensor: &'static str, bytes: u64, maximum: u64) -> (r: Result<
    (),
    BooleanSelectedPagedDecodeError,
>)
    ensures
        r == selected_binding_rule(tensor, bytes as int, maximum),
{
    if bytes > maximum {
        Err(
            BooleanSelectedPagedDecodeError::StorageBindingTooLarge {
                tensor,
                required_bytes: bytes,
                maximum_bytes: maximum,
            },
        )
    } else {
        Ok(())
    }
}

/// Plans one selected decode: revalidates the frozen table against the
/// authoritative one, checks geometry, causal visibility of the full live
/// prefix, buffers and device limits, and packs the uniform words (header,
/// then physical page, logical page and live tokens of each selected page,
/// zero-padded to [`SELECTED_DECODE_PARAM_WORDS`]).
pub fn plan_selected_decode(
    table: &BooleanSelectedPagedKvTable,
    authoritative: &PagedKvTableSnapshot,
    q_heads: usize,
    kv_heads: usize,
    head_dim: usize,
    max_head_dim: usize,
    theta_bits: u32,
    causal: bool,
    q_rope_position: usize,
    q_causal_position: usize,
    buffers: SelectedDecodeBuffers,
    scale_bits: Result<u32, FlatAttentionError>,
    limits: DeviceDispatchLimits,
) -> (r: Result<SelectedDecodeDispatch, BooleanSelectedPagedDecodeError>)
    ensures
        ({
            let rule = selected_dispatch_rule(
                *table,
                *authoritative,
                q_heads,
                kv_heads,
                head_dim,
                max_head_dim,
                theta_bits,
                causal,
                q_causal_position,
                buffers,
                scale_bits,
                limits,
            );
            let values = selected_param_values(
                *table,
                q_heads,
                kv_heads,
                head_dim,
                scale_bits->Ok_0,
                theta_bits,
                causal,
                q_rope_position,
                q_causal_position,
            );
            let wide = first_wide_from(values, 0);
            if rule is Err {
                r == Err::<SelectedDecodeDispatch, BooleanSelectedPagedDecodeError>(rule->Err_0)
            } else if wide < values.len() {
                r == Err::<SelectedDecodeDispatch, BooleanSelectedPagedDecodeError>(
                    BooleanSelectedPagedDecodeError::IndexSpaceExceeded { elements: values[wide] },
                )
            } else if 4 * SELECTED_DECODE_PARAM_WORDS > limits.max_uniform_buffer_binding_size {
                r == Err::<SelectedDecodeDispatch, BooleanSelectedPagedDecodeError>(
                    BooleanSelectedPagedDecodeError::UniformBindingTooLarge {
                        required_bytes: (4 * SELECTED_DECODE_PARAM_WORDS) as u64,
                        maximum_bytes: limits.max_uniform_buffer_binding_size,
                    },
                )
            } else {
                r matches Ok(dispatch) && {
                    &&& dispatch.layout.q_elements == q_heads * head_dim
                    &&& dispatch.layout.combined_bytes == 4 * (q_heads * head_dim + q_heads)
                    &&& dispatch.kv_bytes == 4 * selected_kv_elements(*table, kv_heads, head_dim)
                    &&& dispatch.workgroups == q_heads
                    &&& dispatch.params@.len() == SELECTED_DECODE_PARAM_WORDS
                    &&& forall|k: int|
                        0 <= k < SELECTED_DECODE_PARAM_WORDS ==> #[trigger] dispatch.params@[k] == (
                        if k < values.len() {
                            values[k] as u32
                        } else {
                            0u32
                        })
                }
            }
        }),
{
    table.validate_against(authoritative)?;
    let entries = table.entries();
    if entries.len() == 0 || table.selected_live_tokens() == 0 {
        return Err(BooleanSelectedPagedDecodeError::EmptySelection);
    }
    if entries.len() > BOOLEAN_SELECTED_PAGED_MAX_PAGES {
        return Err(
            BooleanSelectedPagedDecodeError::TooManySelectedPages {
                actual: entries.len(),
                maximum: BOOLEAN_SELECTED_PAGED_MAX_PAGES,
            },
        );
    }
    validate_geometry(q_heads, kv_heads, head_dim, max_head_dim)?;
    if !(0 < theta_bits && theta_bits < 0x7f80_0000) {
        return Err(BooleanSelectedPagedDecodeError::InvalidTheta(theta_bits));
    }
    let full_live = table.full_live_tokens();
    if causal {
        let visible = match q_causal_position.checked_add(1) {
            Some(v) => v,
            None => {
                return Err(
                    BooleanSelectedPagedDecodeError::Core(FlatAttentionError::PositionOverflow),
                )
            },
        };
        if visible < full_live {
            return Err(
                BooleanSelectedPagedDecodeError::CausalVisibilityMismatch {
                    query_position: q_causal_position,
                    full_kv_len: full_live,
                },
            );
        }
    }
    let layout = selected_decode_layout(q_heads, head_dim, max_head_dim)?;
    let overflow = BooleanSelectedPagedDecodeError::Core(FlatAttentionError::ShapeOverflow);
    let rows = match table.physical_pages().checked_mul(table.page_size()) {
        Some(v) => v,
        None => return Err(overflow),
    };
    let width = match kv_heads.checked_mul(head_dim) {
        Some(v) => v,
        None => return Err(overflow),
    };
    let kv_elements = match rows.checked_mul(width) {
        Some(v) => v,
        None => return Err(overflow),
    };
    let kv_bytes = match kv_elements.checked_mul(4) {
        Some(v) => v as u64,
        None => return Err(overflow),
    };
    selected_buffer("Q", buffers.q_bytes, layout.q_bytes)?;
    selected_buffer("K", buffers.k_bytes, kv_bytes)?;
    selected_buffer("V", buffers.v_bytes, kv_bytes)?;
    selected_buffer("O|LSE", buffers.out_and_lse_bytes, layout.combined_bytes)?;
    if q_heads > limits.max_compute_workgroups_per_dimension as usize {
        return Err(
            BooleanSelectedPagedDecodeError::DispatchLimit {
                actual: q_heads,
                maximum: limits.max_compute_workgroups_per_dimension,
            },
        );
    }
    let storage = limits.max_storage_buffer_binding_size;
    selected_binding("Q", layout.q_bytes, storage)?;
    selected_binding("K", kv_bytes, storage)?;
    selected_binding("V", kv_bytes, storage)?;
    selected_binding("O|LSE", layout.combined_bytes, storage)?;
    let scale = match scale_bits {
        Ok(bits) => bits,
        Err(e) => return Err(BooleanSelectedPagedDecodeError::Core(e)),
    };
    let ghost values = selected_param_values(
        *table,
        q_heads,
        kv_heads,
        head_dim,
        scale,
        theta_bits,
        causal,
        q_rope_position,
        q_causal_position,
    );
    let mut staged: Vec<usize> = Vec::new();
    staged.push(full_live);
    staged.push(table.page_size());
    staged.push(table.physical_pages());
    staged.push(entries.len());
    staged.push(table.selected_live_tokens());
    staged.push(head_dim);
    staged.push(q_heads);
    staged.push(kv_heads);
    staged.push(scale as usize);
    staged.push(theta_bits as usize);
    staged.push(q_rope_position);
    staged.push(q_causal_position);
    staged.push(if causal { 1usize } else { 0usize });
    staged.push(0);
    staged.push(0);
    staged.push(0);
    let mut e: usize = 0;
    while e < entries.len()
        invariant
            e <= entries@.len(),
            entries@ == table.spec_entries(),
            entries@.len() <= BOOLEAN_SELECTED_PAGED_MAX_PAGES,
            staged@.len() == 16 + 4 * e,
            forall|k: int| 0 <= k < 16 ==> #[trigger] staged@[k] == values[k],
            values == selected_param_values(
                *table,
                q_heads,
                kv_heads,
                head_dim,
                scale,
                theta_bits,
                causal,
                q_rope_position,
                q_causal_position,
            ),
            forall|k: int|
                16 <= k < 16 + 4 * e ==> #[trigger] staged@[k] == descriptor_value(
                    entries@[(k - 16) / 4],
                    (k - 16) % 4,
                ),
        decreases entries.len() - e,
    {
        let d = entries[e];
        staged.push(d.physical_page);
        staged.push(d.logical_page);
        staged.push(d.live_tokens);
        staged.push(0);
        e = e + 1;
    }
    proof {
        assert(staged@ =~= values);
    }
    let mut words: Vec<u32> = Vec::new();
    let mut k: usize = 0;
    while k < staged.len()
        invariant
            k <= staged@.len(),
            values == selected_param_values(
                *table,
                q_heads,
                kv_heads,
                head_dim,
                scale,
                theta_bits,
                causal,
                q_rope_position,
                q_causal_position,
            ),
            staged@ == values,
            values.len() <= SELECTED_DECODE_PARAM_WORDS,
            scale_bits == Ok::<u32, FlatAttentionError>(scale),
            selected_dispatch_rule(
                *table,
                *authoritative,
                q_heads,
                kv_heads,
                head_dim,
                max_head_dim,
                theta_bits,
                causal,
                q_causal_position,
                buffers,
                scale_bits,
                limits,
            ) is Ok,
            words@.len() == k,
            first_wide_from(values, 0) == first_wide_from(values, k as int),
            forall|j: int| 0 <= j < k ==> #[trigger] words@[j] == values[j] as u32,
        decreases staged.len() - k,
    {
        let value = staged[k];
        if value > 0xffff_ffffusize {
            return Err(BooleanSelectedPagedDecodeError::IndexSpaceExceeded { elements: value });
        }
        words.push(value as u32);
        k = k + 1;
    }
    while words.len() < SELECTED_DECODE_PARAM_WORDS
        invariant
            values.len() <= words@.len() <= SELECTED_DECODE_PARAM_WORDS,
            forall|j: int|
                0 <= j < words@.len() ==> #[trigger] words@[j] == (if j < values.len() {
                    values[j] as u32
                } else {
                    0u32
                }),
        decreases SELECTED_DECODE_PARAM_WORDS - words.len(),
    {
        words.push(0);
    }
    let uniform_bytes: u64 = 4160;
    if uniform_bytes > limits.max_uniform_buffer_binding_size {
        return Err(
            BooleanSelectedPagedDecodeError::UniformBindingTooLarge {
                required_bytes: uniform_bytes,
                maximum_bytes: limits.max_uniform_buffer_binding_size,
            },
        );
    }
    Ok(SelectedDecodeDispatch { layout, kv_bytes, params: words, workgroups: q_heads as u32 })
}

/// A table frozen from a selection revalidates against the same authoritative
/// table. Every snapshot maps exactly the pages its live tokens fill
/// (`spec_covers_live_tokens`, a type invariant of `PagedKvTableSnapshot`).
pub proof fn lemma_frozen_table_revalidates(
    frozen: BooleanSelectedPagedKvTable,
    selection: BooleanIndexedKvSelection,
    table: PagedKvTableSnapshot,
)
    requires
        selection_rule(selection, table) is Ok,
        frozen_from(frozen, selection, table),
        table.spec_covers_live_tokens(),
    ensures
        revalidation_rule(frozen, table) == Ok::<(), BooleanSelectedPagedDecodeError>(()),
{
    let pages = selection.selected_pages@;
    lemma_entries_pass(pages, table, pages.len() as int);
    assert(frozen.spec_entries() =~= pages.map_values(
        |page: BooleanSelectedKvPage| descriptor_of(page),
    ));
}

proof fn lemma_entries_pass(pages: Seq<BooleanSelectedKvPage>, table: PagedKvTableSnapshot, n: int)
    requires
        0 <= n <= pages.len(),
        first_page_failure(pages, table, n) is Ok,
    ensures
        first_entry_failure(
            pages.map_values(|page: BooleanSelectedKvPage| descriptor_of(page)),
            table,
            n,
        ) is Ok,
    decreases n,
{
    if n > 0 {
        lemma_entries_pass(pages, table, n - 1);
        let entries = pages.map_values(|page: BooleanSelectedKvPage| descriptor_of(page));
        assert(entries[n - 1] == descriptor_of(pages[n - 1]));
    }
}

} // verus!
