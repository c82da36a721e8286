//! The interactive explorer as a stack of screens.
//!
//! The screen on top of the stack is the one shown. Each function here takes
//! what the user picked on that screen and changes the stack: it pushes the
//! screen to show next, pops the screen that is done, or clears the stack,
//! which ends the explorer. Asking the user and talking to the node is left to the
//! caller.

use std::sync::Arc;
use vstd::prelude::*;
use vstd::string::StringExecFns;

use crate::filter::{in_order, kept, sorted, Filter};
use crate::id::{decimal_string, decimal_text};
use crate::content::{optional_text, ImageProbe};
use crate::inscription::{
    file_name_of, inscriptions_view, Inscription, InscriptionView, Transaction,
};
use crate::scan::{block_inscriptions, block_records, lemma_no_filter_keeps_all};
use crate::options::{ExtraOption, ExtraOptions};
use crate::text::ascii_text;

verus! {

/// How many blocks a page shows below its newest.
pub const PAGE_SPAN: u64 = 100;

/// A screen of the explorer.
#[derive(Debug, Clone, PartialEq, Eq)]
pub enum Screen {
    MainMenu,
    SelectBlocks { starting_block: Option<u64>, index: Option<usize> },
    InscriptionFilters,
    ExtraOptions,
    /// Shows nothing: fetches the inscriptions of a block and pushes the
    /// screen that lists them.
    RetrieveBlockInscriptions(u64),
    SelectInscriptions(Vec<Arc<Inscription>>, Option<usize>),
    PrintInscription(Arc<Inscription>),
}

/// The state of the explorer.
#[derive(Debug, Clone, PartialEq, Eq)]
pub struct State {
    /// The stack of screens.
    pub view: Vec<Screen>,
    /// The filters that the user has selected.
    pub filters: Vec<Filter>,
    /// The extra options that the user has set.
    pub extra_opts: ExtraOptions,
}

/// An entry of the main menu.
#[derive(Debug, Clone, Copy, PartialEq, Eq, Structural)]
pub enum MainMenuChoice {
    ViewBlocks,
    InscriptionFilters,
    ExtraOptions,
    Quit,
}

/// An entry of the list of blocks.
#[derive(Debug, Clone, Copy, PartialEq, Eq, Structural)]
pub enum BlockChoice {
    Home,
    NextPage,
    PreviousPage,
    Block(u64),
}

/// What to do with an inscription that is shown.
#[derive(Debug, Clone, PartialEq, Eq)]
pub struct PrintPlan {
    /// Whether to open the inscription on the web.
    pub open_web: bool,
    /// The name of the file to write the payload to, if it is to be written.
    pub file_name: Option<String>,
}

/// The oldest block of the page whose newest block is `newest`.
pub open spec fn oldest_of(newest: u64) -> u64 {
    if newest >= PAGE_SPAN {
        (newest - PAGE_SPAN) as u64
    } else {
        0
    }
}

/// The entry at `position` of the list of blocks of a page: `Home`, the next
/// page, the previous page, and then the blocks from the newest down to the
/// oldest.
pub open spec fn block_choice_at(newest: u64, position: int) -> Option<BlockChoice> {
    if position == 0 {
        Some(BlockChoice::Home)
    } else if position == 1 {
        Some(BlockChoice::NextPage)
    } else if position == 2 {
        Some(BlockChoice::PreviousPage)
    } else if 3 <= position <= 3 + newest - oldest_of(newest) {
        Some(BlockChoice::Block((newest - (position - 3)) as u64))
    } else {
        None
    }
}

/// The block that the page after this one starts from: the one before the
/// oldest of this page, if there is one.
pub open spec fn next_page_start(newest: u64) -> Option<u64> {
    if oldest_of(newest) >= 1 {
        Some((oldest_of(newest) - 1) as u64)
    } else {
        None
    }
}

/// The stack with the picked position noted in the list of blocks on top of
/// it, so that the list opens there the next time.
pub open spec fn with_block_position(stack: Seq<Screen>, position: usize) -> Seq<Screen> {
    if stack.len() > 0 && stack.last() is SelectBlocks {
        stack.drop_last().push(
            Screen::SelectBlocks {
                starting_block: stack.last()->starting_block,
                index: Some(position),
            },
        )
    } else {
        stack
    }
}

/// The stack with the picked position noted in the list of inscriptions on
/// top of it.
pub open spec fn with_inscription_position(stack: Seq<Screen>, position: usize) -> Seq<Screen> {
    if stack.len() > 0 && stack.last() is SelectInscriptions {
        stack.drop_last().push(Screen::SelectInscriptions(stack.last()->SelectInscriptions_0, Some(position)))
    } else {
        stack
    }
}

/// The stack without its top, if it has one.
pub open spec fn popped(stack: Seq<Screen>) -> Seq<Screen> {
    if stack.len() > 0 {
        stack.drop_last()
    } else {
        stack
    }
}

/// The stack after a pick in the main menu.
pub open spec fn after_main_menu(stack: Seq<Screen>, picked: MainMenuChoice) -> Seq<Screen> {
    match picked {
        MainMenuChoice::ViewBlocks => stack.push(
            Screen::SelectBlocks { starting_block: None, index: None },
        ),
        MainMenuChoice::InscriptionFilters => stack.push(Screen::InscriptionFilters),
        MainMenuChoice::ExtraOptions => stack.push(Screen::ExtraOptions),
        MainMenuChoice::Quit => Seq::empty(),
    }
}

/// The stack after a pick in the list of blocks of the page whose newest
/// block is `newest`. A position past the list changes nothing but the
/// noted position.
pub open spec fn after_select_blocks(stack: Seq<Screen>, newest: u64, position: usize) -> Seq<Screen> {
    let noted = with_block_position(stack, position);
    match block_choice_at(newest, position as int) {
        Some(BlockChoice::Home) => seq![Screen::MainMenu],
        Some(BlockChoice::NextPage) => noted.push(
            Screen::SelectBlocks { starting_block: next_page_start(newest), index: None },
        ),
        Some(BlockChoice::PreviousPage) => popped(noted),
        Some(BlockChoice::Block(height)) => noted.push(Screen::RetrieveBlockInscriptions(height)),
        None => noted,
    }
}

/// The stack after a pick in the list of inscriptions, which `Home` heads.
/// A position past the list changes nothing but the noted position.
pub open spec fn after_select_inscriptions(
    stack: Seq<Screen>,
    inscriptions: Seq<Arc<Inscription>>,
    position: usize,
) -> Seq<Screen> {
    let noted = with_inscription_position(stack, position);
    if position == 0 {
        seq![Screen::MainMenu]
    } else if position - 1 < inscriptions.len() {
        noted.push(Screen::PrintInscription(inscriptions[position - 1]))
    } else {
        noted
    }
}

impl MainMenuChoice {
    /// What the entry is shown as.
    pub open spec fn label(self) -> Seq<char> {
        match self {
            MainMenuChoice::ViewBlocks => "View Blocks"@,
            MainMenuChoice::InscriptionFilters => "Inscription Filters"@,
            MainMenuChoice::ExtraOptions => "Extra Options"@,
            MainMenuChoice::Quit => "Quit"@,
        }
    }

    /// The entries of the main menu, in their order.
    pub fn all() -> (r: Vec<MainMenuChoice>)
        ensures
            r@ == seq![
                MainMenuChoice::ViewBlocks,
                MainMenuChoice::InscriptionFilters,
                MainMenuChoice::ExtraOptions,
                MainMenuChoice::Quit,
            ],
    {
        let mut list: Vec<MainMenuChoice> = Vec::new();
        list.push(MainMenuChoice::ViewBlocks);
        list.push(MainMenuChoice::InscriptionFilters);
        list.push(MainMenuChoice::ExtraOptions);
        list.push(MainMenuChoice::Quit);
        assert(list@ =~= seq![
            MainMenuChoice::ViewBlocks,
            MainMenuChoice::InscriptionFilters,
            MainMenuChoice::ExtraOptions,
            MainMenuChoice::Quit,
        ]);
        list
    }

    /// What the entry is shown as.
    pub fn to_string(&self) -> (r: String)
        ensures
            r@ == self.label(),
    {
        match self {
            MainMenuChoice::ViewBlocks => String::from_str("View Blocks"),
            MainMenuChoice::InscriptionFilters => String::from_str("Inscription Filters"),
            MainMenuChoice::ExtraOptions => String::from_str("Extra Options"),
            MainMenuChoice::Quit => String::from_str("Quit"),
        }
    }
}

impl BlockChoice {
    /// What the entry is shown as: its name, or the height of the block.
    pub open spec fn label(self) -> Seq<char> {
        match self {
            BlockChoice::Home => "Home"@,
            BlockChoice::NextPage => "Next Page"@,
            BlockChoice::PreviousPage => "Previous Page"@,
            BlockChoice::Block(height) => ascii_text(decimal_text(height as nat)),
        }
    }

    /// What the entry is shown as.
    pub fn to_string(&self) -> (r: String)
        ensures
            r@ == self.label(),
    {
        match self {
            BlockChoice::Home => String::from_str("Home"),
            BlockChoice::NextPage => String::from_str("Next Page"),
            BlockChoice::PreviousPage => String::from_str("Previous Page"),
            BlockChoice::Block(height) => decimal_string(*height),
        }
    }
}

/// The newest block of a page: the block it was asked to start from, else
/// the one before the last of the chain, which has `chain_blocks` blocks
/// above its first.
pub fn newest_block(start: Option<u64>, chain_blocks: u64) -> (r: u64)
    requires
        start is None ==> chain_blocks >= 1,
    ensures
        r == match start {
            Some(block) => block,
            None => (chain_blocks - 1) as u64,
        },
{
    match start {
        Some(block) => block,
        None => chain_blocks - 1,
    }
}

/// The oldest block of the page whose newest block is `newest`.
pub fn oldest_block(newest: u64) -> (r: u64)
    ensures
        r == oldest_of(newest),
{
    if newest >= PAGE_SPAN {
        newest - PAGE_SPAN
    } else {
        0
    }
}

/// The entry at `position` of the list of blocks of a page, if the list is
/// that long.
pub fn block_choice(newest: u64, position: usize) -> (r: Option<BlockChoice>)
    ensures
        r == block_choice_at(newest, position as int),
{
    let oldest = oldest_block(newest);
    if position == 0 {
        Some(BlockChoice::Home)
    } else if position == 1 {
        Some(BlockChoice::NextPage)
    } else if position == 2 {
        Some(BlockChoice::PreviousPage)
    } else if (position - 3) as u64 <= newest - oldest {
        Some(BlockChoice::Block(newest - ((position - 3) as u64)))
    } else {
        None
    }
}

/// The list of blocks of a page, entry by entry.
pub fn block_choices(newest: u64) -> (r: Vec<BlockChoice>)
    ensures
        r@.len() == 4 + newest - oldest_of(newest),
        forall|position: int|
            0 <= position < r@.len() ==> block_choice_at(newest, position) == Some(
                #[trigger] r@[position],
            ),
{
    let oldest = oldest_block(newest);
    let mut list: Vec<BlockChoice> = Vec::new();
    list.push(BlockChoice::Home);
    list.push(BlockChoice::NextPage);
    list.push(BlockChoice::PreviousPage);
    let count: u64 = newest - oldest + 1;
    let mut k: u64 = 0;
    while k < count
        invariant
            k <= count,
            count == newest - oldest + 1,
            count <= PAGE_SPAN + 1,
            oldest == oldest_of(newest),
            list@.len() == 3 + k,
            forall|position: int|
                0 <= position < list@.len() ==> block_choice_at(newest, position) == Some(
                    #[trigger] list@[position],
                ),
        decreases count - k,
    {
        list.push(BlockChoice::Block(newest - k));
        k = k + 1;
    }
    list
}

impl State {
    /// The state in which the explorer starts: the main menu, every filter
    /// selected, and the extra options as they are by default.
    pub fn new() -> (r: State)
        ensures
            r.view@ == seq![Screen::MainMenu],
            r.filters@ == seq![
                Filter::Text,
                Filter::Json,
                Filter::Brc20,
                Filter::Html,
                Filter::Image,
            ],
            r.extra_opts == (ExtraOptions {
                extract: false,
                web: false,
                ordinals: true,
                atomicals: false,
            }),
    {
        let mut view: Vec<Screen> = Vec::new();
        view.push(Screen::MainMenu);
        assert(view@ =~= seq![Screen::MainMenu]);
        State { view, filters: Filter::all(), extra_opts: ExtraOptions::default() }
    }

    /// The screen to show, if the explorer has not ended.
    pub fn current(&self) -> (r: Option<&Screen>)
        ensures
            r == if self.view@.len() > 0 {
                Some(&self.view@.last())
            } else {
                None
            },
    {
        let n = self.view.len();
        if n > 0 {
            Some(&self.view[n - 1])
        } else {
            None
        }
    }

    fn go_home(&mut self)
        ensures
            final(self).view@ == seq![Screen::MainMenu],
            final(self).filters == old(self).filters,
            final(self).extra_opts == old(self).extra_opts,
    {
        self.view.clear();
        self.view.push(Screen::MainMenu);
        assert(self.view@ =~= seq![Screen::MainMenu]);
    }

    fn note_block_position(&mut self, position: usize)
        ensures
            final(self).view@ == with_block_position(old(self).view@, position),
            final(self).filters == old(self).filters,
            final(self).extra_opts == old(self).extra_opts,
    {
        let ghost before = self.view@;
        match self.view.pop() {
            Some(Screen::SelectBlocks { starting_block, index: _ }) => {
                self.view.push(Screen::SelectBlocks { starting_block, index: Some(position) });
            },
            Some(other) => {
                self.view.push(other);
                assert(self.view@ =~= before);
            },
            None => {},
        }
    }

    fn note_inscription_position(&mut self, position: usize)
        ensures
            final(self).view@ == with_inscription_position(old(self).view@, position),
            final(self).filters == old(self).filters,
            final(self).extra_opts == old(self).extra_opts,
    {
        let ghost before = self.view@;
        match self.view.pop() {
            Some(Screen::SelectInscriptions(inscriptions, _)) => {
                self.view.push(Screen::SelectInscriptions(inscriptions, Some(position)));
            },
            Some(other) => {
                self.view.push(other);
                assert(self.view@ =~= before);
            },
            None => {},
        }
    }
}

/// Goes on from the main menu with what the user picked: to the picked
/// screen, or out of the explorer.
pub fn main_menu(state: &mut State, picked: MainMenuChoice)
    ensures
        final(state).view@ == after_main_menu(old(state).view@, picked),
        final(state).filters == old(state).filters,
        final(state).extra_opts == old(state).extra_opts,
{
    match picked {
        MainMenuChoice::ViewBlocks => {
            state.view.push(Screen::SelectBlocks { starting_block: None, index: None });
        },
        MainMenuChoice::InscriptionFilters => {
            state.view.push(Screen::InscriptionFilters);
        },
        MainMenuChoice::ExtraOptions => {
            state.view.push(Screen::ExtraOptions);
        },
        MainMenuChoice::Quit => {
            state.view.clear();
        },
    }
}

/// Goes on from the list of blocks of the page whose newest block is
/// `newest`, with the position that the user picked. The position is noted
/// in the list. `Home` leads to the main menu alone, the next page is pushed,
/// the previous page is what lies under this one, and a block leads to the
/// screen that fetches its inscriptions.
pub fn select_blocks(state: &mut State, newest: u64, position: usize)
    ensures
        final(state).view@ == after_select_blocks(old(state).view@, newest, position),
        final(state).filters == old(state).filters,
        final(state).extra_opts == old(state).extra_opts,
{
    state.note_block_position(position);
    match block_choice(newest, position) {
        Some(BlockChoice::Home) => {
            state.go_home();
        },
        Some(BlockChoice::NextPage) => {
            let oldest = oldest_block(newest);
            let starting_block = if oldest >= 1 {
                Some(oldest - 1)
            } else {
                None
            };
            state.view.push(Screen::SelectBlocks { starting_block, index: None });
        },
        Some(BlockChoice::PreviousPage) => {
            state.view.pop();
        },
        Some(BlockChoice::Block(height)) => {
            state.view.push(Screen::RetrieveBlockInscriptions(height));
        },
        None => {},
    }
}

/// Takes the filters that the user chose, in the order of the filters, and
/// leaves the screen.
pub fn set_filters(state: &mut State, chosen: &[Filter])
    ensures
        final(state).view@ == popped(old(state).view@),
        final(state).filters@ == in_order(chosen@),
        final(state).extra_opts == old(state).extra_opts,
{
    state.filters = sorted(chosen);
    state.view.pop();
}

/// Switches on exactly the extra options that the user chose, and leaves
/// the screen.
pub fn set_extra_options(state: &mut State, chosen: &[ExtraOption])
    ensures
        final(state).view@ == popped(old(state).view@),
        final(state).filters == old(state).filters,
        forall|opt: ExtraOption| final(state).extra_opts.has(opt) == chosen@.contains(opt),
{
    state.extra_opts.set_opts(chosen);
    state.view.pop();
}

/// Whether a screen is the list of inscriptions with these records, with no
/// position noted yet.
pub open spec fn lists(screen: Screen, records: Seq<InscriptionView>) -> bool {
    screen matches Screen::SelectInscriptions(list, index) && index is None && inscriptions_view(
        list@,
    ) == records
}

fn show_found(state: &mut State, found: Vec<Arc<Inscription>>) -> (r: bool)
    ensures
        r == (found@.len() > 0),
        final(state).view@ == if found@.len() > 0 {
            popped(old(state).view@).push(Screen::SelectInscriptions(found, None))
        } else {
            popped(old(state).view@)
        },
        final(state).filters == old(state).filters,
        final(state).extra_opts == old(state).extra_opts,
{
    state.view.pop();
    if found.len() == 0 {
        return false;
    }
    state.view.push(Screen::SelectInscriptions(found, None));
    true
}

/// Leaves the screen that fetches the inscriptions of a block, given the
/// transactions of the block, and goes on to the list of the inscriptions
/// that pass the selected filters, in the order of the transactions. With no
/// filter selected every inscription of the block is listed. Tells whether
/// there is anything to list: if not, no list is shown.
pub fn retrieve_block_inscriptions(
    state: &mut State,
    txs: &Vec<Transaction>,
    probe: &ImageProbe,
) -> (r: bool)
    ensures
        r == (kept(block_records(txs@, txs@.len() as int, probe@), old(state).filters@).len() > 0),
        !r ==> final(state).view@ == popped(old(state).view@),
        r ==> final(state).view@.len() > 0 && final(state).view@.drop_last() == popped(
            old(state).view@,
        ) && lists(
            final(state).view@.last(),
            kept(block_records(txs@, txs@.len() as int, probe@), old(state).filters@),
        ),
        r && old(state).filters@.len() == 0 ==> lists(
            final(state).view@.last(),
            block_records(txs@, txs@.len() as int, probe@),
        ),
        final(state).filters == old(state).filters,
        final(state).extra_opts == old(state).extra_opts,
{
    let found = block_inscriptions(txs, state.filters.as_slice(), probe);
    proof {
        assert(inscriptions_view(found@).len() == found@.len());
        if state.filters@.len() == 0 {
            lemma_no_filter_keeps_all(
                block_records(txs@, txs@.len() as int, probe@),
                state.filters@,
            );
        }
        assert(popped(state.view@).push(Screen::SelectInscriptions(found, None)).drop_last()
            =~= popped(state.view@));
    }
    show_found(state, found)
}

/// Goes on from the list of inscriptions with the position that the user
/// picked. The position is noted in the list. The first entry is `Home`,
/// which leads to the main menu alone; any other leads to the screen that
/// shows the inscription.
pub fn select_inscriptions(
    state: &mut State,
    inscriptions: &Vec<Arc<Inscription>>,
    position: usize,
)
    ensures
        final(state).view@ == after_select_inscriptions(
            old(state).view@,
            inscriptions@,
            position,
        ),
        final(state).filters == old(state).filters,
        final(state).extra_opts == old(state).extra_opts,
{
    state.note_inscription_position(position);
    if position == 0 {
        state.go_home();
    } else if position - 1 < inscriptions.len() {
        state.view.push(Screen::PrintInscription(inscriptions[position - 1].clone()));
    }
}

/// Says what to do with the inscription that is shown, by the extra options,
/// and leaves the screen.
pub fn print_inscription(state: &mut State, inscription: &Inscription) -> (r: PrintPlan)
    ensures
        r.open_web == old(state).extra_opts.web,
        optional_text(r.file_name) == if old(state).extra_opts.extract {
            Some(file_name_of(inscription@))
        } else {
            None
        },
        final(state).view@ == popped(old(state).view@),
        final(state).filters == old(state).filters,
        final(state).extra_opts == old(state).extra_opts,
{
    let file_name = if state.extra_opts.extract {
        Some(inscription.file_name())
    } else {
        None
    };
    state.view.pop();
    PrintPlan { open_web: state.extra_opts.web, file_name }
}

/// How many entries of a list to show at once on a terminal of `rows` rows.
pub fn page_size(rows: u16) -> (r: usize)
    ensures
        r == rows / 4,
{
    (rows / 4) as usize
}

} // verus!
