use inscriptions::content::{ImageProbe, ParsedData};
use inscriptions::explore::{
    block_choice, block_choices, main_menu, newest_block, oldest_block, page_size,
    print_inscription, retrieve_block_inscriptions, select_blocks, select_inscriptions,
    set_extra_options, set_filters, BlockChoice, MainMenuChoice, PrintPlan, Screen, State,
};
use inscriptions::filter::{selected_positions, sorted, Filter};
use inscriptions::id::Txid;
use inscriptions::inscription::{Inscription, Transaction, TxIn};
use inscriptions::options::{ExtraOption, ExtraOptions};
use std::sync::Arc;

fn inscription(index: usize) -> Arc<Inscription> {
    Arc::new(Inscription {
        txid: Txid([0; 32]),
        input: 0,
        index,
        mime: "text/plain".to_string(),
        data: b"x".to_vec(),
        parsed: ParsedData::Text("x".to_string()),
    })
}

fn probe() -> ImageProbe {
    ImageProbe::new()
}

fn blocks(starting_block: Option<u64>, index: Option<usize>) -> Screen {
    Screen::SelectBlocks { starting_block, index }
}

#[test]
fn explorer_starts_at_the_main_menu() {
    let state = State::new();
    assert_eq!(state.view, vec![Screen::MainMenu]);
    assert_eq!(state.filters, Filter::all());
    assert_eq!(state.extra_opts, ExtraOptions::default());
    assert_eq!(state.current(), Some(&Screen::MainMenu));
}

#[test]
fn main_menu_entries() {
    let labels: Vec<String> = MainMenuChoice::all().iter().map(|c| c.to_string()).collect();
    assert_eq!(labels, ["View Blocks", "Inscription Filters", "Extra Options", "Quit"]);
}

#[test]
fn main_menu_pushes_the_picked_screen() {
    let mut state = State::new();
    main_menu(&mut state, MainMenuChoice::ViewBlocks);
    assert_eq!(state.view, vec![Screen::MainMenu, blocks(None, None)]);
    let mut state = State::new();
    main_menu(&mut state, MainMenuChoice::InscriptionFilters);
    assert_eq!(state.view, vec![Screen::MainMenu, Screen::InscriptionFilters]);
    let mut state = State::new();
    main_menu(&mut state, MainMenuChoice::ExtraOptions);
    assert_eq!(state.view, vec![Screen::MainMenu, Screen::ExtraOptions]);
}

#[test]
fn quit_ends_the_explorer() {
    let mut state = State::new();
    main_menu(&mut state, MainMenuChoice::ViewBlocks);
    main_menu(&mut state, MainMenuChoice::Quit);
    assert_eq!(state.view, vec![]);
    assert_eq!(state.current(), None);
}

#[test]
fn page_runs_a_hundred_blocks_down() {
    assert_eq!(newest_block(Some(500), 0), 500);
    assert_eq!(newest_block(None, 800_000), 799_999);
    assert_eq!(oldest_block(799_999), 799_899);
    assert_eq!(oldest_block(100), 0);
    assert_eq!(oldest_block(99), 0);
    assert_eq!(oldest_block(0), 0);
}

#[test]
fn list_of_blocks_is_headed_by_the_three_commands() {
    let list = block_choices(799_999);
    assert_eq!(list.len(), 104);
    assert_eq!(list[0], BlockChoice::Home);
    assert_eq!(list[1], BlockChoice::NextPage);
    assert_eq!(list[2], BlockChoice::PreviousPage);
    assert_eq!(list[3], BlockChoice::Block(799_999));
    assert_eq!(list[4], BlockChoice::Block(799_998));
    assert_eq!(list[103], BlockChoice::Block(799_899));
    let labels: Vec<String> = block_choices(2).iter().map(|c| c.to_string()).collect();
    assert_eq!(labels, ["Home", "Next Page", "Previous Page", "2", "1", "0"]);
    assert_eq!(block_choices(0), vec![
        BlockChoice::Home,
        BlockChoice::NextPage,
        BlockChoice::PreviousPage,
        BlockChoice::Block(0)
    ]);
}

#[test]
fn block_choice_is_the_entry_of_the_list() {
    for newest in [0, 5, 100, 101, 799_999, u64::MAX] {
        let list = block_choices(newest);
        for (position, entry) in list.iter().enumerate() {
            assert_eq!(block_choice(newest, position), Some(*entry));
        }
        assert_eq!(block_choice(newest, list.len()), None);
        assert_eq!(block_choice(newest, usize::MAX), None);
    }
}

#[test]
fn picking_a_block_leads_to_its_inscriptions() {
    let mut state = State::new();
    main_menu(&mut state, MainMenuChoice::ViewBlocks);
    select_blocks(&mut state, 799_999, 5);
    assert_eq!(
        state.view,
        vec![Screen::MainMenu, blocks(None, Some(5)), Screen::RetrieveBlockInscriptions(799_997)]
    );
}

#[test]
fn next_page_starts_below_the_oldest_block() {
    let mut state = State::new();
    main_menu(&mut state, MainMenuChoice::ViewBlocks);
    select_blocks(&mut state, 799_999, 1);
    assert_eq!(
        state.view,
        vec![Screen::MainMenu, blocks(None, Some(1)), blocks(Some(799_898), None)]
    );
    select_blocks(&mut state, 50, 1);
    assert_eq!(
        state.view,
        vec![
            Screen::MainMenu,
            blocks(None, Some(1)),
            blocks(Some(799_898), Some(1)),
            blocks(None, None)
        ]
    );
}

#[test]
fn previous_page_leaves_the_list() {
    let mut state = State::new();
    main_menu(&mut state, MainMenuChoice::ViewBlocks);
    select_blocks(&mut state, 799_999, 1);
    select_blocks(&mut state, 799_898, 2);
    assert_eq!(state.view, vec![Screen::MainMenu, blocks(None, Some(1))]);
}

#[test]
fn home_leads_to_the_main_menu_alone() {
    let mut state = State::new();
    main_menu(&mut state, MainMenuChoice::ViewBlocks);
    select_blocks(&mut state, 799_999, 1);
    select_blocks(&mut state, 799_898, 0);
    assert_eq!(state.view, vec![Screen::MainMenu]);
}

#[test]
fn position_past_the_list_of_blocks_is_only_noted() {
    let mut state = State::new();
    main_menu(&mut state, MainMenuChoice::ViewBlocks);
    select_blocks(&mut state, 2, 6);
    assert_eq!(state.view, vec![Screen::MainMenu, blocks(None, Some(6))]);
}

#[test]
fn filters_are_kept_in_their_order() {
    let mut state = State::new();
    main_menu(&mut state, MainMenuChoice::InscriptionFilters);
    set_filters(&mut state, &[Filter::Image, Filter::Text, Filter::Brc20]);
    assert_eq!(state.filters, vec![Filter::Text, Filter::Brc20, Filter::Image]);
    assert_eq!(state.view, vec![Screen::MainMenu]);
}

#[test]
fn sorted_filters_are_what_sort_gives() {
    let chosen = [Filter::Html, Filter::Image, Filter::Text, Filter::Html, Filter::Json];
    let mut expected = chosen.to_vec();
    expected.sort();
    assert_eq!(sorted(&chosen), expected);
    assert_eq!(sorted(&[]), vec![]);
}

#[test]
fn selected_positions_are_those_in_the_list_of_all() {
    assert_eq!(selected_positions(&Filter::all()), vec![0, 1, 2, 3, 4]);
    assert_eq!(selected_positions(&[Filter::Image, Filter::Json, Filter::Image]), vec![1, 4]);
    assert_eq!(selected_positions(&[]), Vec::<usize>::new());
}

#[test]
fn extra_options_are_set_as_chosen() {
    let mut state = State::new();
    main_menu(&mut state, MainMenuChoice::ExtraOptions);
    set_extra_options(&mut state, &[ExtraOption::Web, ExtraOption::Extract]);
    assert_eq!(
        state.extra_opts,
        ExtraOptions { extract: true, web: true, ordinals: false, atomicals: false }
    );
    assert_eq!(state.view, vec![Screen::MainMenu]);
}

fn envelope_script(tag: &[u8], payload: &[u8]) -> Vec<u8> {
    let mut script = vec![0x00, 0x63, 0x03, b'o', b'r', b'd', 0x01, 0x01];
    script.push(tag.len() as u8);
    script.extend_from_slice(tag);
    script.push(0x00);
    script.push(payload.len() as u8);
    script.extend_from_slice(payload);
    script.push(0x68);
    script
}

fn tx(id: u8, script: Vec<u8>) -> Transaction {
    Transaction {
        txid: Txid([id; 32]),
        input: vec![TxIn { witness: vec![vec![1; 64], script, vec![0xc0; 33]] }],
    }
}

fn block() -> Vec<Transaction> {
    vec![
        tx(1, envelope_script(b"text/plain", b"one")),
        tx(2, vec![0xac]),
        tx(3, envelope_script(b"x", &[0xff])),
        tx(4, envelope_script(b"text/html", b"four")),
    ]
}

fn record(id: u8, mime: &str, data: &[u8], parsed: ParsedData) -> Arc<Inscription> {
    Arc::new(Inscription {
        txid: Txid([id; 32]),
        input: 0,
        index: 0,
        mime: mime.to_string(),
        data: data.to_vec(),
        parsed,
    })
}

#[test]
fn inscriptions_that_pass_the_selected_filters_are_listed() {
    let mut state = State::new();
    state.view.push(Screen::RetrieveBlockInscriptions(7));
    assert!(retrieve_block_inscriptions(&mut state, &block(), &probe()));
    assert_eq!(
        state.view,
        vec![
            Screen::MainMenu,
            Screen::SelectInscriptions(
                vec![
                    record(1, "text/plain", b"one", ParsedData::Text("one".to_string())),
                    record(4, "text/html", b"four", ParsedData::Html("four".to_string())),
                ],
                None
            )
        ]
    );
    assert_eq!(state.filters, Filter::all());

    let mut state = State::new();
    state.filters = vec![Filter::Html];
    state.view.push(Screen::RetrieveBlockInscriptions(7));
    assert!(retrieve_block_inscriptions(&mut state, &block(), &probe()));
    assert_eq!(
        state.view,
        vec![
            Screen::MainMenu,
            Screen::SelectInscriptions(
                vec![record(4, "text/html", b"four", ParsedData::Html("four".to_string()))],
                None
            )
        ]
    );
}

#[test]
fn every_inscription_is_listed_where_no_filter_is_selected() {
    let mut state = State::new();
    state.filters = vec![];
    state.view.push(Screen::RetrieveBlockInscriptions(7));
    assert!(retrieve_block_inscriptions(&mut state, &block(), &probe()));
    assert_eq!(
        state.view,
        vec![
            Screen::MainMenu,
            Screen::SelectInscriptions(
                vec![
                    record(1, "text/plain", b"one", ParsedData::Text("one".to_string())),
                    record(3, "x", &[0xff], ParsedData::Binary),
                    record(4, "text/html", b"four", ParsedData::Html("four".to_string())),
                ],
                None
            )
        ]
    );
}

#[test]
fn block_without_inscriptions_shows_no_list() {
    let mut state = State::new();
    state.view.push(Screen::RetrieveBlockInscriptions(7));
    assert!(!retrieve_block_inscriptions(&mut state, &vec![tx(2, vec![0xac])], &probe()));
    assert_eq!(state.view, vec![Screen::MainMenu]);
    state.view.push(Screen::RetrieveBlockInscriptions(7));
    assert!(!retrieve_block_inscriptions(&mut state, &vec![], &probe()));
    assert_eq!(state.view, vec![Screen::MainMenu]);
}

#[test]
fn block_whose_inscriptions_no_selected_filter_accepts_shows_no_list() {
    let mut state = State::new();
    state.filters = vec![Filter::Image, Filter::Brc20];
    state.view.push(Screen::RetrieveBlockInscriptions(7));
    assert!(!retrieve_block_inscriptions(&mut state, &block(), &probe()));
    assert_eq!(state.view, vec![Screen::MainMenu]);
}

#[test]
fn picking_an_inscription_shows_it() {
    let found = vec![inscription(0), inscription(1)];
    let mut state = State::new();
    state.view.push(Screen::SelectInscriptions(found.clone(), None));
    select_inscriptions(&mut state, &found, 2);
    assert_eq!(
        state.view,
        vec![
            Screen::MainMenu,
            Screen::SelectInscriptions(found.clone(), Some(2)),
            Screen::PrintInscription(inscription(1))
        ]
    );
}

#[test]
fn home_in_the_list_of_inscriptions_leads_to_the_main_menu() {
    let found = vec![inscription(0)];
    let mut state = State::new();
    state.view.push(Screen::SelectInscriptions(found.clone(), None));
    select_inscriptions(&mut state, &found, 0);
    assert_eq!(state.view, vec![Screen::MainMenu]);
}

#[test]
fn position_past_the_list_of_inscriptions_is_only_noted() {
    let found = vec![inscription(0)];
    let mut state = State::new();
    state.view.push(Screen::SelectInscriptions(found.clone(), None));
    select_inscriptions(&mut state, &found, 2);
    assert_eq!(state.view, vec![Screen::MainMenu, Screen::SelectInscriptions(found, Some(2))]);
}

#[test]
fn print_plan_goes_by_the_extra_options() {
    let mut state = State::new();
    state.view.push(Screen::PrintInscription(inscription(4)));
    let plan = print_inscription(&mut state, &inscription(4));
    assert_eq!(plan, PrintPlan { open_web: false, file_name: None });
    assert_eq!(state.view, vec![Screen::MainMenu]);

    let mut state = State::new();
    state.extra_opts = ExtraOptions { extract: true, web: true, ordinals: true, atomicals: false };
    state.view.push(Screen::PrintInscription(inscription(4)));
    let plan = print_inscription(&mut state, &inscription(4));
    assert_eq!(
        plan,
        PrintPlan {
            open_web: true,
            file_name: Some(
                "0000000000000000000000000000000000000000000000000000000000000000i4.txt".to_string()
            ),
        }
    );
}

#[test]
fn page_size_is_a_quarter_of_the_rows() {
    assert_eq!(page_size(20), 5);
    assert_eq!(page_size(3), 0);
    assert_eq!(page_size(u16::MAX), 16383);
}
