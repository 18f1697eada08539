//! The navigation state of an interactive session over the chains of a log.

use crate::clock::{nanos_since, start_clock};
use crate::ipapi::{cache_key, url_of, IpApiCache, IpLookup};
use crate::parser::{group_views, AuditGroup};
use crate::search::{filter_of, lemma_everything_matches, matching_indices, FilterView, SearchFilter};
use crate::text::optional_text;
use std::time::Instant;
use vstd::prelude::*;

verus! {

/// The two screens of a session.
#[derive(Debug, Clone, Copy, PartialEq, Eq, Structural)]
pub enum AppView {
    TableView,
    DetailView,
}

/// The screen rows that the table of chains takes up, borders and header
/// included.
#[derive(Debug, Clone, Copy, PartialEq, Eq, Structural)]
pub struct TableArea {
    pub y: u16,
    pub height: u16,
}

/// What the caller has to do after a step that needs outside work.
#[derive(Debug, Clone, PartialEq, Eq)]
pub enum Effect {
    /// Nothing.
    Nothing,
    /// Parse the log again and hand its chains to [`App::refresh`].
    Reload,
    /// Fetch `url` and hand the answer, or its absence, to
    /// [`App::ip_info_fetched`] together with `key`.
    FetchIpInfo { key: String, url: String },
}

/// Two clicks on one row open the detail view when less than this many
/// nanoseconds lie between them.
pub const DOUBLE_CLICK_NANOS: u128 = 500_000_000;

/// The chains of a log, the part of them that the search query lets through,
/// and the cursors of the session on that part.
pub struct App {
    pub audit_groups: Vec<AuditGroup>,
    /// Positions in `audit_groups` of the chains that match the query.
    pub filtered_groups: Vec<usize>,
    /// Position of the selected row in `filtered_groups`.
    pub selected_index: usize,
    /// Position in `filtered_groups` of the first visible row.
    pub scroll_offset: usize,
    pub search_query: String,
    pub search_mode: bool,
    pub current_view: AppView,
    pub detail_scroll: usize,
    pub should_quit: bool,
    pub log_path: String,
    /// Clock reading of the last click, in nanoseconds since `clock_origin`.
    pub last_click_time: Option<u128>,
    pub last_click_row: Option<usize>,
    pub table_area: Option<TableArea>,
    pub ip_api_enabled: bool,
    pub ip_api_cache: IpApiCache,
    /// Information on the client address of the chain in the detail view.
    pub current_ip_info: Option<String>,
    pub clock_origin: Instant,
}

/// The last position of a list of `len` rows; 0 for an empty list.
pub open spec fn last_row(len: int) -> int {
    if len == 0 {
        0
    } else {
        len - 1
    }
}

/// The smaller of two numbers.
pub open spec fn at_most(a: int, bound: int) -> int {
    if a <= bound {
        a
    } else {
        bound
    }
}

/// Where the viewport of `height` rows starts once `selected` is selected: it
/// moves up to a selection above it, moves down just far enough to show a
/// selection below it as its last row, and stays otherwise.
pub open spec fn snapped(scroll: int, selected: int, height: int) -> int {
    if selected < scroll {
        selected
    } else if selected - scroll >= height {
        if height >= 1 {
            selected - (height - 1)
        } else {
            selected
        }
    } else {
        scroll
    }
}

/// The nanoseconds from `earlier` to `later` on the monotonic clock; none
/// where `later` is not the later one.
pub open spec fn elapsed(earlier: u128, later: u128) -> int {
    if later >= earlier {
        later - earlier
    } else {
        0
    }
}

/// Whether a click on `row` at time `now` is the second click of a
/// double-click: the last click was on the same row, less than the threshold ago.
pub open spec fn is_double_click(
    last_time: Option<u128>,
    last_row: Option<usize>,
    row: usize,
    now: u128,
) -> bool {
    match (last_time, last_row) {
        (Some(time), Some(last)) => last == row && elapsed(time, now) < DOUBLE_CLICK_NANOS,
        _ => false,
    }
}

/// The positions 0, 1, .. of a list in order.
pub fn all_positions(groups: &Vec<AuditGroup>) -> (positions: Vec<usize>)
    ensures
        positions@ == matching_indices(group_views(groups@), FilterView::Everything),
        positions@ == Seq::new(groups@.len(), |i: int| i as usize),
{
    let mut positions: Vec<usize> = Vec::new();
    let mut i: usize = 0;
    while i < groups.len()
        invariant
            i <= groups.len(),
            positions@ == Seq::new(i as nat, |k: int| k as usize),
        decreases groups.len() - i,
    {
        positions.push(i);
        i = i + 1;
    }
    proof {
        lemma_everything_matches(group_views(groups@));
    }
    positions
}

/// Tells whether two lists of positions are the same.
pub fn same_positions(a: &Vec<usize>, b: &Vec<usize>) -> (same: bool)
    ensures
        same == (a@ == b@),
{
    if a.len() != b.len() {
        return false;
    }
    let mut i: usize = 0;
    while i < a.len()
        invariant
            i <= a.len(),
            a.len() == b.len(),
            forall|k: int| 0 <= k < i ==> a@[k] == b@[k],
        decreases a.len() - i,
    {
        if a[i] != b[i] {
            return false;
        }
        i = i + 1;
    }
    assert(a@ =~= b@);
    true
}

/// The positions of the chains that pass `filter`, in order.
pub fn matching_positions(groups: &Vec<AuditGroup>, filter: &SearchFilter) -> (positions: Vec<usize>)
    ensures
        positions@ == matching_indices(group_views(groups@), filter@),
{
    let mut positions: Vec<usize> = Vec::new();
    let mut i: usize = 0;
    while i < groups.len()
        invariant
            i <= groups.len(),
            positions@ == matching_indices(group_views(groups@).take(i as int), filter@),
        decreases groups.len() - i,
    {
        proof {
            let grown = group_views(groups@).take(i + 1);
            assert(grown.drop_last() == group_views(groups@).take(i as int));
            assert(grown.last() == groups[i as int]@);
        }
        if filter.accepts(&groups[i]) {
            positions.push(i);
        }
        i = i + 1;
    }
    proof {
        assert(group_views(groups@).take(i as int) == group_views(groups@));
    }
    positions
}

impl App {
    /// The filtered list is what the query lets through, the selection lies
    /// in it (at 0 where it is empty), and the viewport starts at or above the
    /// selection.
    pub open spec fn wf(&self) -> bool {
        &&& self.filtered_groups@ == matching_indices(
            group_views(self.audit_groups@),
            filter_of(self.search_query@),
        )
        &&& self.selected_index <= last_row(self.filtered_groups@.len() as int)
        &&& self.scroll_offset <= self.selected_index
    }

    /// Whether `other` differs from this state in nothing but the query, the
    /// filtered list, the selection and the viewport.
    pub open spec fn same_session(&self, other: &App) -> bool {
        &&& other.audit_groups == self.audit_groups
        &&& other.search_mode == self.search_mode
        &&& other.current_view == self.current_view
        &&& other.detail_scroll == self.detail_scroll
        &&& other.should_quit == self.should_quit
        &&& other.log_path == self.log_path
        &&& other.last_click_time == self.last_click_time
        &&& other.last_click_row == self.last_click_row
        &&& other.table_area == self.table_area
        &&& other.ip_api_enabled == self.ip_api_enabled
        &&& other.ip_api_cache == self.ip_api_cache
        &&& other.current_ip_info == self.current_ip_info
        &&& other.clock_origin == self.clock_origin
    }

    /// This state with another selection and viewport.
    pub open spec fn at(self, selected: int, scroll: int) -> App {
        App { selected_index: selected as usize, scroll_offset: scroll as usize, ..self }
    }

    /// This state with another offset into the detail view.
    pub open spec fn with_detail_scroll(self, offset: int) -> App {
        App { detail_scroll: offset as usize, ..self }
    }

    /// The number of rows of the filtered list.
    pub open spec fn rows(self) -> int {
        self.filtered_groups@.len() as int
    }

    /// The state after the row above is selected, if there is one; the
    /// viewport follows a selection that leaves it at the top.
    pub open spec fn moved_up(self) -> App {
        if self.selected_index > 0 {
            self.at(
                self.selected_index - 1,
                at_most(self.scroll_offset as int, self.selected_index - 1),
            )
        } else {
            self
        }
    }

    /// The state after the row below is selected, if there is one; the
    /// viewport of `height` rows follows a selection that leaves it at the
    /// bottom.
    pub open spec fn moved_down(self, height: usize) -> App {
        if self.selected_index < last_row(self.rows()) {
            self.at(
                self.selected_index + 1,
                snapped(self.scroll_offset as int, self.selected_index + 1, height as int),
            )
        } else {
            self
        }
    }

    /// The state a page further up: selection and viewport each move by
    /// `page_size` rows, not above the first row.
    pub open spec fn paged_up(self, page_size: usize) -> App {
        self.at(
            if self.selected_index >= page_size {
                self.selected_index - page_size
            } else {
                0
            },
            if self.scroll_offset >= page_size {
                self.scroll_offset - page_size
            } else {
                0
            },
        )
    }

    /// The state a page further down: the selection moves by `page_size` rows
    /// and stops at the last row, the viewport moves as far and stops where the
    /// last page begins.
    pub open spec fn paged_down(self, page_size: usize) -> App {
        self.at(
            at_most(self.selected_index + page_size, last_row(self.rows())),
            at_most(
                self.scroll_offset + page_size,
                if self.rows() >= page_size {
                    self.rows() - page_size
                } else {
                    0
                },
            ),
        )
    }

    /// The state with the last row selected and shown as the last row of a
    /// viewport of `height` rows.
    pub open spec fn at_last(self, height: usize) -> App {
        let last = last_row(self.rows());
        self.at(
            last,
            if height >= 1 && last >= height - 1 {
                last - (height - 1)
            } else if height >= 1 {
                0
            } else {
                last
            },
        )
    }

    /// The state after a click on `row` at clock reading `now`: the row is
    /// selected, the viewport follows, the click is remembered.
    pub open spec fn clicked(self, row: usize, height: usize, now: u128) -> App {
        App {
            selected_index: row,
            scroll_offset: snapped(self.scroll_offset as int, row as int, height as int) as usize,
            last_click_time: Some(now),
            last_click_row: Some(row),
            ..self
        }
    }

    /// `after` is this state with the query `query` applied: the filtered
    /// list is what the query lets through, selection and viewport are at the
    /// top, and nothing else has changed.
    pub open spec fn searched(&self, after: &App, query: Seq<char>) -> bool {
        &&& after.wf()
        &&& after.search_query@ == query
        &&& after.selected_index == 0
        &&& after.scroll_offset == 0
        &&& self.same_session(after)
    }

    /// The client address of the selected chain.
    pub open spec fn selected_ip(self) -> Seq<char> {
        self.audit_groups@[self.filtered_groups@[self.selected_index as int] as int].client_ip@
    }

    /// `after` and `effect` are what the lookup of the selected chain's client
    /// address gives. With lookups disabled or no chain selected nothing
    /// happens. Information cached under the address's key becomes the current
    /// one; else the current one stays and the lookup to make comes back.
    pub open spec fn looked_up(self, after: App, effect: Effect) -> bool {
        &&& after == (App { current_ip_info: after.current_ip_info, ..self })
        &&& if !self.ip_api_enabled || self.rows() == 0 {
            effect == Effect::Nothing && after.current_ip_info == self.current_ip_info
        } else if self.ip_api_cache@.contains_key(cache_key(self.selected_ip())) {
            &&& effect == Effect::Nothing
            &&& optional_text(after.current_ip_info) == Some(
                self.ip_api_cache@[cache_key(self.selected_ip())],
            )
        } else {
            &&& effect matches Effect::FetchIpInfo { key, url }
            &&& key@ == cache_key(self.selected_ip())
            &&& url@ == url_of(cache_key(self.selected_ip()))
            &&& after.current_ip_info == self.current_ip_info
        }
    }

    /// `after` and `effect` are what opening the detail view gives: the view
    /// is shown from its top; with lookups enabled the client address is looked
    /// up, with lookups disabled there is no address information.
    pub open spec fn detail_shown(self, after: App, effect: Effect) -> bool {
        let opened = App { current_view: AppView::DetailView, detail_scroll: 0, ..self };
        if self.ip_api_enabled {
            opened.looked_up(after, effect)
        } else {
            effect == Effect::Nothing && after == (App { current_ip_info: None, ..opened })
        }
    }

    /// A session over `audit_groups`: table view, no search, every chain
    /// shown in the given order, the first one selected.
    pub fn new(log_path: &str, audit_groups: Vec<AuditGroup>, ip_api_enabled: bool) -> (app: App)
        ensures
            app.wf(),
            app.audit_groups == audit_groups,
            app.filtered_groups@ == Seq::new(audit_groups@.len(), |i: int| i as usize),
            app.selected_index == 0,
            app.scroll_offset == 0,
            app.search_query@ == Seq::<char>::empty(),
            !app.search_mode,
            app.current_view == AppView::TableView,
            app.detail_scroll == 0,
            !app.should_quit,
            app.log_path@ == log_path@,
            app.last_click_time is None,
            app.last_click_row is None,
            app.table_area is None,
            app.ip_api_enabled == ip_api_enabled,
            app.ip_api_cache@ == Map::<Seq<char>, Seq<char>>::empty(),
            app.current_ip_info is None,
    {
        let filtered_groups = all_positions(&audit_groups);
        App {
            audit_groups,
            filtered_groups,
            selected_index: 0,
            scroll_offset: 0,
            search_query: String::new(),
            search_mode: false,
            current_view: AppView::TableView,
            detail_scroll: 0,
            should_quit: false,
            log_path: log_path.to_owned(),
            last_click_time: None,
            last_click_row: None,
            table_area: None,
            ip_api_enabled,
            ip_api_cache: IpApiCache::new(),
            current_ip_info: None,
            clock_origin: start_clock(),
        }
    }

    /// Replaces the chains by those of a fresh parse. The query is applied
    /// again; selection and viewport stay where they were, as far as the new
    /// list reaches.
    pub fn refresh(&mut self, audit_groups: Vec<AuditGroup>)
        requires
            old(self).wf(),
        ensures
            final(self).wf(),
            *final(self) == (App {
                audit_groups,
                filtered_groups: final(self).filtered_groups,
                selected_index: at_most(
                    old(self).selected_index as int,
                    last_row(final(self).rows()),
                ) as usize,
                scroll_offset: at_most(
                    old(self).scroll_offset as int,
                    last_row(final(self).rows()),
                ) as usize,
                ..*old(self)
            }),
    {
        let saved_selected_index = self.selected_index;
        let saved_scroll_offset = self.scroll_offset;
        let filter = SearchFilter::parse(self.search_query.as_str());
        self.filtered_groups = matching_positions(&audit_groups, &filter);
        self.audit_groups = audit_groups;
        let max_index = if self.filtered_groups.len() == 0 {
            0
        } else {
            self.filtered_groups.len() - 1
        };
        self.selected_index = if saved_selected_index <= max_index {
            saved_selected_index
        } else {
            max_index
        };
        self.scroll_offset = if saved_scroll_offset <= max_index {
            saved_scroll_offset
        } else {
            max_index
        };
    }

    /// Tells whether this state is well-formed: whether the filtered list is
    /// what the query lets through and the cursors lie within it.
    pub fn is_well_formed(&self) -> (ok: bool)
        ensures
            ok == self.wf(),
    {
        let filter = SearchFilter::parse(self.search_query.as_str());
        let expected = matching_positions(&self.audit_groups, &filter);
        let last = if self.filtered_groups.len() == 0 {
            0
        } else {
            self.filtered_groups.len() - 1
        };
        same_positions(&self.filtered_groups, &expected) && self.selected_index <= last
            && self.scroll_offset <= self.selected_index
    }

    /// The selected chain; `None` where no chain matches the query.
    pub fn selected_group(&self) -> (group: Option<&AuditGroup>)
        requires
            self.wf(),
        ensures
            self.filtered_groups@.len() == 0 ==> group is None,
            self.filtered_groups@.len() > 0 ==> group == Some(
                &self.audit_groups@[self.filtered_groups@[self.selected_index as int] as int],
            ),
    {
        proof {
            lemma_filtered_in_range(self);
        }
        if self.selected_index < self.filtered_groups.len() {
            Some(&self.audit_groups[self.filtered_groups[self.selected_index]])
        } else {
            None
        }
    }

    /// The rows of the filtered list that a viewport of `height` rows shows:
    /// from the viewport's start up to, but not with, the position that comes
    /// back second.
    pub fn visible_range(&self, height: usize) -> (range: (usize, usize))
        ensures
            range.0 == at_most(self.scroll_offset as int, self.rows()),
            range.1 == at_most(self.scroll_offset + height, self.rows()),
    {
        let len = self.filtered_groups.len();
        if self.scroll_offset >= len {
            (len, len)
        } else if height >= len - self.scroll_offset {
            (self.scroll_offset, len)
        } else {
            (self.scroll_offset, self.scroll_offset + height)
        }
    }

    /// The chains that match the query, in order.
    pub fn visible_groups(&self) -> (visible: Vec<&AuditGroup>)
        requires
            self.wf(),
        ensures
            visible@.len() == self.filtered_groups@.len(),
            forall|i: int|
                0 <= i < visible@.len() ==> *(#[trigger] visible@[i])
                    == self.audit_groups@[self.filtered_groups@[i] as int],
    {
        proof {
            lemma_filtered_in_range(self);
        }
        let mut visible: Vec<&AuditGroup> = Vec::new();
        let mut i: usize = 0;
        while i < self.filtered_groups.len()
            invariant
                i <= self.filtered_groups.len(),
                visible@.len() == i,
                forall|k: int|
                    0 <= k < self.filtered_groups@.len() ==> (#[trigger] self.filtered_groups@[k])
                        < self.audit_groups@.len(),
                forall|k: int|
                    0 <= k < i ==> *(#[trigger] visible@[k])
                        == self.audit_groups@[self.filtered_groups@[k] as int],
            decreases self.filtered_groups.len() - i,
        {
            visible.push(&self.audit_groups[self.filtered_groups[i]]);
            i = i + 1;
        }
        visible
    }

    /// Selects the row above, if there is one; the viewport follows a
    /// selection that leaves it at the top.
    pub fn move_selection_up(&mut self)
        requires
            old(self).wf(),
        ensures
            final(self).wf(),
            *final(self) == old(self).moved_up(),
    {
        if self.selected_index > 0 {
            self.selected_index = self.selected_index - 1;
            if self.selected_index < self.scroll_offset {
                self.scroll_offset = self.selected_index;
            }
        }
    }

    /// Selects the row below, if there is one; the viewport of
    /// `visible_height` rows follows a selection that leaves it at the bottom.
    pub fn move_selection_down(&mut self, visible_height: usize)
        requires
            old(self).wf(),
        ensures
            final(self).wf(),
            *final(self) == old(self).moved_down(visible_height),
    {
        if self.filtered_groups.len() > 0 && self.selected_index < self.filtered_groups.len() - 1 {
            self.selected_index = self.selected_index + 1;
            self.scroll_offset = snap(self.scroll_offset, self.selected_index, visible_height);
        }
    }

    /// Moves selection and viewport up by a page, each as far as the list reaches.
    pub fn page_up(&mut self, page_size: usize)
        requires
            old(self).wf(),
        ensures
            final(self).wf(),
            *final(self) == old(self).paged_up(page_size),
    {
        self.selected_index = self.selected_index.saturating_sub(page_size);
        self.scroll_offset = self.scroll_offset.saturating_sub(page_size);
    }

    /// Moves selection and viewport down by a page. The selection stops at
    /// the last row, the viewport where the last page begins.
    pub fn page_down(&mut self, page_size: usize)
        requires
            old(self).wf(),
        ensures
            final(self).wf(),
            *final(self) == old(self).paged_down(page_size),
    {
        let len = self.filtered_groups.len();
        let last = if len == 0 {
            0
        } else {
            len - 1
        };
        let last_page = len.saturating_sub(page_size);
        self.selected_index = if page_size <= last - self.selected_index {
            self.selected_index + page_size
        } else {
            last
        };
        self.scroll_offset = if self.scroll_offset <= last_page && page_size <= last_page
            - self.scroll_offset {
            self.scroll_offset + page_size
        } else {
            last_page
        };
    }

    /// Selects the first row.
    pub fn select_first(&mut self)
        requires
            old(self).wf(),
        ensures
            final(self).wf(),
            *final(self) == old(self).at(0, 0),
    {
        self.selected_index = 0;
        self.scroll_offset = 0;
    }

    /// Selects the last row and shows it as the last row of the viewport.
    pub fn select_last(&mut self, visible_height: usize)
        requires
            old(self).wf(),
        ensures
            final(self).wf(),
            *final(self) == old(self).at_last(visible_height),
    {
        let last = if self.filtered_groups.len() == 0 {
            0
        } else {
            self.filtered_groups.len() - 1
        };
        self.selected_index = last;
        self.scroll_offset = last.saturating_sub(visible_height.saturating_sub(1));
    }

    /// Scrolls the detail view up by a line, not above its top.
    pub fn scroll_detail_up(&mut self)
        ensures
            *final(self) == old(self).with_detail_scroll(
                if old(self).detail_scroll > 0 {
                    old(self).detail_scroll - 1
                } else {
                    0
                },
            ),
    {
        self.detail_scroll = self.detail_scroll.saturating_sub(1);
    }

    /// Scrolls the detail view down by a line. There is no bound but that of
    /// the machine: whoever renders the view clamps to its content.
    pub fn scroll_detail_down(&mut self)
        ensures
            *final(self) == old(self).with_detail_scroll(
                at_most(old(self).detail_scroll + 1, usize::MAX as int),
            ),
    {
        self.detail_scroll = self.detail_scroll.saturating_add(1);
    }

    /// Scrolls the detail view up by a page, not above its top.
    pub fn page_detail_up(&mut self, page_size: usize)
        ensures
            *final(self) == old(self).with_detail_scroll(
                if old(self).detail_scroll >= page_size {
                    old(self).detail_scroll - page_size
                } else {
                    0
                },
            ),
    {
        self.detail_scroll = self.detail_scroll.saturating_sub(page_size);
    }

    /// Scrolls the detail view down by a page, bounded by the machine alone.
    pub fn page_detail_down(&mut self, page_size: usize)
        ensures
            *final(self) == old(self).with_detail_scroll(
                at_most(old(self).detail_scroll + page_size, usize::MAX as int),
            ),
    {
        self.detail_scroll = self.detail_scroll.saturating_add(page_size);
    }

    /// Scrolls the detail view to its top.
    pub fn scroll_detail_home(&mut self)
        ensures
            *final(self) == old(self).with_detail_scroll(0),
    {
        self.detail_scroll = 0;
    }

    /// Scrolls the detail view as far down as the machine counts; whoever
    /// renders the view clamps to its content.
    pub fn scroll_detail_end(&mut self)
        ensures
            *final(self) == old(self).with_detail_scroll(usize::MAX as int),
    {
        self.detail_scroll = usize::MAX;
    }

    /// Starts the editing of the query.
    pub fn enter_search_mode(&mut self)
        ensures
            *final(self) == (App { search_mode: true, ..*old(self) }),
    {
        self.search_mode = true;
    }

    /// Ends the editing of the query.
    pub fn exit_search_mode(&mut self)
        ensures
            *final(self) == (App { search_mode: false, ..*old(self) }),
    {
        self.search_mode = false;
    }

    /// Shows the table again. The address information stays for the next visit.
    pub fn show_table_view(&mut self)
        ensures
            *final(self) == (App { current_view: AppView::TableView, ..*old(self) }),
    {
        self.current_view = AppView::TableView;
    }

    /// Asks for the end of the session.
    pub fn quit(&mut self)
        ensures
            *final(self) == (App { should_quit: true, ..*old(self) }),
    {
        self.should_quit = true;
    }

    /// Remembers where the table was drawn.
    pub fn set_table_area(&mut self, area: TableArea)
        ensures
            *final(self) == (App { table_area: Some(area), ..*old(self) }),
    {
        self.table_area = Some(area);
    }
}

impl App {
    /// Applies the query: the filtered list becomes the chains that the query
    /// lets through, and selection and viewport go back to the top.
    pub fn apply_search(&mut self)
        ensures
            old(self).searched(final(self), old(self).search_query@),
            final(self).search_query == old(self).search_query,
    {
        let filter = SearchFilter::parse(self.search_query.as_str());
        self.filtered_groups = matching_positions(&self.audit_groups, &filter);
        self.selected_index = 0;
        self.scroll_offset = 0;
    }

    /// Replaces the query and applies it.
    pub fn set_search_query(&mut self, query: String)
        ensures
            old(self).searched(final(self), query@),
            final(self).search_query == query,
    {
        self.search_query = query;
        self.apply_search();
    }

    /// Appends a character to the query and applies it.
    pub fn add_search_char(&mut self, c: char)
        ensures
            old(self).searched(final(self), old(self).search_query@.push(c)),
    {
        self.search_query.push(c);
        self.apply_search();
    }

    /// Removes the last character of the query, if it has one, and applies it.
    pub fn remove_search_char(&mut self)
        ensures
            old(self).searched(
                final(self),
                if old(self).search_query@.len() > 0 {
                    old(self).search_query@.drop_last()
                } else {
                    old(self).search_query@
                },
            ),
    {
        let _ = self.search_query.pop();
        self.apply_search();
    }

    /// Empties the query: every chain is shown again, in order, the first selected.
    pub fn clear_search(&mut self)
        ensures
            old(self).searched(final(self), Seq::<char>::empty()),
            final(self).filtered_groups@ == Seq::new(
                old(self).audit_groups@.len(),
                |i: int| i as usize,
            ),
    {
        self.search_query = String::new();
        self.filtered_groups = all_positions(&self.audit_groups);
        self.selected_index = 0;
        self.scroll_offset = 0;
    }

    /// Tells whether `group` matches the query.
    pub fn matches_search(&self, group: &AuditGroup) -> (pass: bool)
        ensures
            pass == crate::search::accepts(filter_of(self.search_query@), group@),
    {
        SearchFilter::parse(self.search_query.as_str()).accepts(group)
    }

    /// Looks up the client address of the selected chain, where lookups are
    /// enabled and a chain is selected. Cached information becomes the
    /// current one; else the lookup to make comes back.
    pub fn lookup_selected_ip(&mut self) -> (effect: Effect)
        requires
            old(self).wf(),
        ensures
            final(self).wf(),
            old(self).looked_up(*final(self), effect),
    {
        if !self.ip_api_enabled {
            return Effect::Nothing;
        }
        let lookup = match self.selected_group() {
            Some(group) => self.ip_api_cache.get_ip_info(group.client_ip.as_str()),
            None => {
                return Effect::Nothing;
            },
        };
        match lookup {
            IpLookup::Cached(info) => {
                self.current_ip_info = Some(info);
                Effect::Nothing
            },
            IpLookup::Fetch { key, url } => Effect::FetchIpInfo { key, url },
        }
    }

    /// Records the outcome of a lookup that [`App::lookup_selected_ip`] or
    /// [`App::show_detail_view`] asked for. An answer is cached under `key` and
    /// becomes the current information; a failed lookup leaves no information.
    pub fn ip_info_fetched(&mut self, key: String, info: Option<String>)
        ensures
            *final(self) == (App {
                current_ip_info: info,
                ip_api_cache: final(self).ip_api_cache,
                ..*old(self)
            }),
            final(self).ip_api_cache@ == match info {
                Some(blob) => old(self).ip_api_cache@.insert(key@, blob@),
                None => old(self).ip_api_cache@,
            },
    {
        match &info {
            Some(blob) => {
                self.ip_api_cache.store(key, blob.clone());
            },
            None => {},
        }
        self.current_ip_info = info;
    }

    /// Opens the detail view of the selected chain at its top. With lookups
    /// enabled the client address is looked up as in
    /// [`App::lookup_selected_ip`]; with lookups disabled there is no
    /// address information.
    pub fn show_detail_view(&mut self) -> (effect: Effect)
        requires
            old(self).wf(),
        ensures
            final(self).wf(),
            old(self).detail_shown(*final(self), effect),
    {
        self.current_view = AppView::DetailView;
        self.detail_scroll = 0;
        if self.ip_api_enabled {
            self.lookup_selected_ip()
        } else {
            self.current_ip_info = None;
            Effect::Nothing
        }
    }

    /// Handles a click on `row` of the filtered list at clock reading `now`.
    /// The row is selected and the viewport follows it; the click is
    /// remembered. The result tells whether this was the second click of a
    /// double-click, on which the caller opens the detail view.
    pub fn handle_click_at(&mut self, row: usize, visible_height: usize, now: u128) -> (open: bool)
        requires
            old(self).wf(),
            row <= last_row(old(self).filtered_groups@.len() as int),
        ensures
            final(self).wf(),
            open == is_double_click(old(self).last_click_time, old(self).last_click_row, row, now),
            *final(self) == old(self).clicked(row, visible_height, now),
    {
        let open = match (self.last_click_time, self.last_click_row) {
            (Some(time), Some(last)) => {
                let gap = if now >= time {
                    now - time
                } else {
                    0
                };
                last == row && gap < DOUBLE_CLICK_NANOS
            },
            _ => false,
        };
        self.selected_index = row;
        self.scroll_offset = snap(self.scroll_offset, row, visible_height);
        self.last_click_time = Some(now);
        self.last_click_row = Some(row);
        open
    }

    /// The present reading of the session's clock.
    pub fn clock_reading(&self) -> (now: u128) {
        nanos_since(&self.clock_origin)
    }

    /// Handles a click on `row` of the filtered list, timed by the session's
    /// clock: see [`App::handle_click_at`].
    pub fn handle_click(&mut self, row: usize, visible_height: usize) -> (open: bool)
        requires
            old(self).wf(),
            row <= last_row(old(self).filtered_groups@.len() as int),
        ensures
            final(self).wf(),
            exists|now: u128|
                {
                    &&& open == is_double_click(
                        old(self).last_click_time,
                        old(self).last_click_row,
                        row,
                        now,
                    )
                    &&& *final(self) == old(self).clicked(row, visible_height, now)
                },
    {
        let now = self.clock_reading();
        self.handle_click_at(row, visible_height, now)
    }

    /// The row of the filtered list that is shown on screen row `mouse_row`;
    /// `None` where no table area is known or the screen row shows no row of
    /// the list.
    pub open spec fn row_at(&self, mouse_row: u16) -> Option<usize> {
        match self.table_area {
            Some(area) => {
                let hit = self.scroll_offset + (mouse_row - (area.y + 2));
                if area.y + 2 <= mouse_row < area.y + area.height - 1 && hit
                    < self.filtered_groups@.len() {
                    Some(hit as usize)
                } else {
                    None
                }
            },
            None => None,
        }
    }

    /// The row of the filtered list that a click on screen row `mouse_row`
    /// hits: the rows of the table area between its header and its lower
    /// border show the filtered list from the viewport's start. `None` where no
    /// table area is known or the click hits no row of the list.
    pub fn click_target(&self, mouse_row: u16) -> (row: Option<usize>)
        ensures
            row == self.row_at(mouse_row),
    {
        match self.table_area {
            Some(area) => {
                let top = area.y as u32 + 2;
                let mouse = mouse_row as u32;
                if mouse >= top && mouse + 1 < area.y as u32 + area.height as u32 {
                    let clicked = (mouse - top) as usize;
                    if clicked < self.filtered_groups.len() && self.scroll_offset
                        < self.filtered_groups.len() - clicked {
                        Some(self.scroll_offset + clicked)
                    } else {
                        None
                    }
                } else {
                    None
                }
            },
            None => None,
        }
    }

    /// The rows of a table area that show chains: its height without the two
    /// borders and the header.
    pub open spec fn content_rows(area: TableArea) -> usize {
        if area.height >= 3 {
            (area.height - 3) as usize
        } else {
            0
        }
    }

    /// The rows of a table area that show chains.
    pub fn content_height(area: TableArea) -> (rows: usize)
        ensures
            rows == Self::content_rows(area),
    {
        area.height.saturating_sub(3) as usize
    }
}

/// Where the viewport starts once `selected` is selected.
pub fn snap(scroll: usize, selected: usize, visible_height: usize) -> (start: usize)
    ensures
        start == snapped(scroll as int, selected as int, visible_height as int),
{
    if selected < scroll {
        selected
    } else if selected - scroll >= visible_height {
        selected - visible_height.saturating_sub(1)
    } else {
        scroll
    }
}

/// In a well-formed state the selection is a row of the filtered list, or 0
/// where the list is empty.
pub proof fn lemma_selection_in_bounds(app: &App)
    requires
        app.wf(),
    ensures
        app.rows() > 0 ==> 0 <= app.selected_index < app.rows(),
        app.rows() == 0 ==> app.selected_index == 0,
        app.scroll_offset <= app.selected_index,
{
}

/// After a click on a row, a click on the same row is the second click of a
/// double-click exactly where less than the threshold lies between the two;
/// a click on another row never is.
pub proof fn lemma_second_click(
    app: App,
    row: usize,
    other_row: usize,
    height: usize,
    first: u128,
    second: u128,
)
    requires
        first <= second,
        other_row != row,
    ensures
        is_double_click(
            app.clicked(row, height, first).last_click_time,
            app.clicked(row, height, first).last_click_row,
            row,
            second,
        ) <==> second - first < DOUBLE_CLICK_NANOS,
        !is_double_click(
            app.clicked(row, height, first).last_click_time,
            app.clicked(row, height, first).last_click_row,
            other_row,
            second,
        ),
{
}

/// With an empty query the filtered list is the full list of chains in
/// unmodified order.
pub proof fn lemma_empty_query_shows_all(app: &App)
    requires
        app.wf(),
        app.search_query@.len() == 0,
    ensures
        app.filtered_groups@ == Seq::new(app.audit_groups@.len(), |i: int| i as usize),
{
    broadcast use vstd::std_specs::vec::axiom_spec_len;

    assert(app.audit_groups@.len() == app.audit_groups.len());
    lemma_everything_matches(group_views(app.audit_groups@));
}

/// Every position of the filtered list is a position of a chain, and the
/// positions increase.
pub proof fn lemma_filtered_in_range(app: &App)
    requires
        app.wf(),
    ensures
        app.filtered_groups@.len() <= app.audit_groups@.len(),
        forall|k: int|
            0 <= k < app.filtered_groups@.len() ==> (#[trigger] app.filtered_groups@[k])
                < app.audit_groups@.len(),
        forall|k: int, l: int|
            0 <= k < l < app.filtered_groups@.len() ==> (#[trigger] app.filtered_groups@[k]) < (
            #[trigger] app.filtered_groups@[l]),
{
    broadcast use vstd::std_specs::vec::axiom_spec_len;

    assert(app.audit_groups@.len() == app.audit_groups.len());
    crate::search::lemma_matching_indices(
        group_views(app.audit_groups@),
        filter_of(app.search_query@),
    );
}

} // verus!
