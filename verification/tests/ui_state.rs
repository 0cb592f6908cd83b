use eilmeldung::key_bindings::{generate_default_input_commands, match_single_key, match_single_key_to_single_command};
use eilmeldung::feed_order::{sort_categories, sort_feeds};
use eilmeldung::config_defaults::{config_defaults, TargetOs};
use eilmeldung::base16_theme::{
    Base16ThemeEntry, Base16ThemePolarity, Base16ThemeSource, Base16ToColorPaletteMapping,
    Base16Index, EntryOrder,
};
use eilmeldung::base16_theme::{theme_entries, yaml_theme_name, Base16Palette, Base16Theme};
use eilmeldung::style::TermColor;
use eilmeldung::config::{ArticleScope, HintType};
use eilmeldung::filter_state::{ArticleQuery, AugmentedArticleFilter, FilterState, MarkedFilter, ReadFilter, ReadMarkedFilter};
use eilmeldung::mouse::{
    mouse_outcome, AppState, MouseAction, MouseContext, MouseKind, Panel, PanelAreas, Rect,
};

fn areas() -> PanelAreas {
    PanelAreas {
        feed_list: Rect { x: 0, y: 0, width: 20, height: 30 },
        articles_list: Rect { x: 20, y: 0, width: 40, height: 30 },
        article_content: Rect { x: 61, y: 0, width: 39, height: 30 },
    }
}

fn ctx(state: AppState) -> MouseContext {
    MouseContext {
        modal_active: false,
        state,
        drag_resize_active: false,
        articles_width_override: None,
        areas: areas(),
    }
}

#[test]
fn a_click_focuses_the_panel_under_it() {
    let o = mouse_outcome(&ctx(AppState::FeedSelection), MouseKind::LeftDown, 30, 5);
    assert_eq!(AppState::ArticleSelection, o.state);
    assert!(o.actions.contains(&MouseAction::SwitchState(AppState::ArticleSelection)));
}

#[test]
fn distraction_free_mode_keeps_its_state_on_click() {
    let o = mouse_outcome(&ctx(AppState::ArticleContentDistractionFree), MouseKind::LeftDown, 30, 5);
    assert_eq!(AppState::ArticleContentDistractionFree, o.state);
}

#[test]
fn nothing_happens_while_a_modal_is_open() {
    let mut c = ctx(AppState::FeedSelection);
    c.modal_active = true;
    let o = mouse_outcome(&c, MouseKind::LeftDown, 30, 5);
    assert_eq!(AppState::FeedSelection, o.state);
    assert!(o.actions.is_empty());
}

#[test]
fn the_wheel_scrolls_the_panel_under_the_pointer() {
    let o = mouse_outcome(&ctx(AppState::FeedSelection), MouseKind::ScrollDown, 70, 5);
    assert_eq!(vec![MouseAction::ScrollDown(Panel::ArticleContent), MouseAction::Redraw], o.actions);
}

#[test]
fn the_border_can_be_dragged() {
    let o = mouse_outcome(&ctx(AppState::FeedSelection), MouseKind::LeftDown, 60, 5);
    assert!(o.drag_resize_active);
    let mut c = ctx(AppState::FeedSelection);
    c.drag_resize_active = true;
    let o = mouse_outcome(&c, MouseKind::LeftDrag, 50, 5);
    assert_eq!(Some(30), o.articles_width_override);
}

#[test]
fn panel_hit_testing() {
    assert_eq!(Some(Panel::FeedList), areas().panel_at(3, 3));
    assert_eq!(None, areas().panel_at(3, 40));
    assert_eq!(Some(4), areas().article_row_offset(5));
    assert!(areas().is_on_vertical_border(60, 3));
}

#[test]
fn the_scope_decides_the_read_filter_unless_the_query_does() {
    let mut f: FilterState<u8> = FilterState::new(ArticleScope::Unread);
    assert_eq!(None, f.generate_effective_filter());
    f.on_new_article_filter(AugmentedArticleFilter {
        filter: ReadMarkedFilter { unread: None, marked: Some(MarkedFilter::Unmarked) },
        defines_scope: false,
        query: ArticleQuery { sort_order: None },
    });
    assert_eq!(
        Some(ReadMarkedFilter { unread: Some(ReadFilter::Unread), marked: None }),
        f.generate_effective_filter()
    );
    assert_eq!(Some(ArticleScope::Unread), f.get_effective_scope());
    assert!(f.uses_default_sort_order());
}

#[test]
fn a_sticky_adhoc_filter_stays_applied_across_filters() {
    let mut f: FilterState<u8> = FilterState::new(ArticleScope::All);
    f.on_new_article_adhoc_filter(ArticleQuery { sort_order: Some(3) }, true);
    f.on_new_article_filter(AugmentedArticleFilter {
        filter: ReadMarkedFilter { unread: None, marked: None },
        defines_scope: true,
        query: ArticleQuery { sort_order: None },
    });
    assert!(f.apply_article_adhoc_filter);
    assert_eq!(None, f.get_effective_scope());
    let default = 7u8;
    assert_eq!((&3u8, false), f.get_effective_sort_order(&default));
    f.adhoc_sort_order = Some(5);
    f.reverse_sort_order = true;
    assert!(!f.uses_default_sort_order());
    f.clear_sort_order();
    assert_eq!(None, f.adhoc_sort_order);
    assert!(!f.reverse_sort_order);
}

#[test]
fn theme_defaults() {
    assert_eq!(Base16ThemePolarity::Dark, Base16ThemePolarity::default_polarity());
    let light = Base16ToColorPaletteMapping::default_for_polarity(Base16ThemePolarity::Light);
    assert_eq!(Base16Index::Base07, light.foreground);
    let dark = Base16ToColorPaletteMapping::default_mapping();
    assert_eq!(Base16Index::Base05, dark.foreground);
}

#[test]
fn bundled_schemes_are_ordered_by_name() {
    let a = Base16ThemeEntry { name: "ayu".to_owned(), source: Base16ThemeSource::Library { file: "a".to_owned() } };
    let b = Base16ThemeEntry { name: "bright".to_owned(), source: Base16ThemeSource::Library { file: "b".to_owned() } };
    let c = Base16ThemeEntry { name: "zz".to_owned(), source: Base16ThemeSource::Custom { path: "c".to_owned() } };
    assert_eq!(EntryOrder::Less, a.order(&b));
    assert_eq!(EntryOrder::Greater, b.order(&a));
    assert_eq!(EntryOrder::Equal, a.order(&a));
    assert_eq!(EntryOrder::Less, c.order(&a));
    assert_eq!("ayu", a.name());
}

#[test]
fn scopes_and_hints() {
    assert_eq!(ArticleScope::All, ArticleScope::default_scope());
    assert_eq!(vec![ArticleScope::All, ArticleScope::Unread, ArticleScope::Marked], ArticleScope::all_scopes());
    assert_eq!("unread", ArticleScope::Unread.name());
    let mut hints = HintType::Letters.iter();
    assert_eq!(Some("F".to_owned()), hints.next());
}

#[test]
fn yaml_files_name_their_scheme() {
    assert_eq!(Some("nord".to_owned()), yaml_theme_name("nord.yaml"));
    assert_eq!(Some("a.b".to_owned()), yaml_theme_name("a.b.yaml"));
    assert_eq!(Some(".yaml".to_owned()), yaml_theme_name(".yaml"));
    assert_eq!(None, yaml_theme_name("nord.yml"));
    assert_eq!(None, yaml_theme_name("yaml"));
}

fn grey_theme(name: &str) -> Base16Theme {
    let c = TermColor::Rgb(10, 10, 10);
    Base16Theme {
        system: Some("base16".to_owned()),
        name: Some(name.to_owned()),
        author: None,
        variant: Base16ThemePolarity::Dark,
        palette: Base16Palette {
            base00: c, base01: c, base02: c, base03: c, base04: c, base05: c, base06: c,
            base07: c, base08: c, base09: c, base0a: c, base0b: c, base0c: c, base0d: c,
            base0e: c, base0f: c, base10: None, base11: None, base12: None, base13: None,
            base14: None, base15: None, base16: None, base17: None,
        },
    }
}

#[test]
fn schemes_come_from_configuration_directory_and_bundle_in_that_order() {
    let configured = vec![("mine".to_owned(), grey_theme("mine"))];
    let custom = vec![
        ("dusk.yaml".to_owned(), "/themes/dusk.yaml".to_owned()),
        ("notes.txt".to_owned(), "/themes/notes.txt".to_owned()),
    ];
    let bundled = vec!["nord.yaml".to_owned(), "README.md".to_owned(), "gruvbox.yaml".to_owned()];
    let entries = theme_entries(configured, &custom, &bundled);
    let names: Vec<&str> = entries.iter().map(|e| e.name()).collect();
    assert_eq!(vec!["mine", "dusk", "nord", "gruvbox"], names);
    assert!(matches!(&entries[0].source, Base16ThemeSource::Configured { theme } if theme.name.as_deref() == Some("mine")));
    assert!(matches!(&entries[1].source, Base16ThemeSource::Custom { path } if path == "/themes/dusk.yaml"));
    assert!(matches!(&entries[3].source, Base16ThemeSource::Library { file } if file == "gruvbox.yaml"));
}

#[test]
fn entries_are_built_under_their_names() {
    let e = Base16ThemeEntry::custom("dusk", "/t/dusk.yaml".to_owned());
    assert_eq!("dusk", e.name());
    assert!(matches!(e.source, Base16ThemeSource::Custom { ref path } if path == "/t/dusk.yaml"));
    let l = Base16ThemeEntry::library("nord", "nord.yaml".to_owned());
    assert!(matches!(l.source, Base16ThemeSource::Library { ref file } if file == "nord.yaml"));
    let c = Base16ThemeEntry::configured("mine", grey_theme("x"));
    assert_eq!("mine", c.name());
    assert!(matches!(c.source, Base16ThemeSource::Configured { .. }));
}

#[test]
fn a_modal_swallows_drags_even_without_room_to_resize() {
    let c = MouseContext {
        modal_active: true,
        state: AppState::ArticleSelection,
        drag_resize_active: true,
        articles_width_override: Some(10),
        areas: PanelAreas::empty(),
    };
    let o = mouse_outcome(&c, MouseKind::LeftDrag, 2, 2);
    assert!(o.actions.is_empty());
    assert_eq!(Some(10), o.articles_width_override);
}

#[test]
fn the_default_bindings_follow_the_documented_keys() {
    let bindings = eilmeldung::key_bindings::generate_default_input_commands();
    assert_eq!(111, bindings.len());
    assert_eq!(("up".to_owned(), vec!["up".to_owned()]), bindings[0]);
    let o = bindings.iter().find(|(k, _)| k == "o").unwrap();
    assert_eq!(vec!["open", "in articles read", "in articles nextunread"], o.1);
    let sort = bindings.iter().find(|(k, _)| k == "\\").unwrap();
    assert_eq!(vec!["cmd sort"], sort.1);
    let zen = bindings.iter().find(|(k, _)| k == "z").unwrap();
    assert_eq!(vec!["zen"], zen.1);
    let mut keys: Vec<&String> = bindings.iter().map(|(k, _)| k).collect();
    keys.sort();
    keys.dedup();
    assert_eq!(111, keys.len());
}

#[test]
fn user_bindings_are_merged_over_the_defaults() {
    let user = vec![
        ("Z Z".to_owned(), vec!["confirm quit".to_owned()]),
        ("j".to_owned(), vec!["pagedown".to_owned()]),
        ("q".to_owned(), Vec::new()),
    ];
    let merged = eilmeldung::key_bindings::merge_bindings(user);
    assert_eq!(("Z Z".to_owned(), vec!["confirm quit".to_owned()]), merged[0]);
    assert_eq!(("j".to_owned(), vec!["pagedown".to_owned()]), merged[1]);
    assert_eq!(("up".to_owned(), vec!["up".to_owned()]), merged[2]);
    assert!(merged.iter().all(|(k, _)| k != "q"));
    assert_eq!(1, merged.iter().filter(|(k, _)| k == "j").count());
    // 111 defaults, "j" and "q" taken by the user, "q" unbound, "Z Z" added.
    assert_eq!(111 - 2 + 2, merged.len());
}

#[test]
fn the_default_configuration() {
    let c = config_defaults(TargetOs::Linux);
    assert_eq!(10, c.refresh_fps);
    assert!(!c.mouse_support);
    assert_eq!(HintType::Letters, c.hint_type);
    assert_eq!(ArticleScope::Unread, c.article_scope);
    assert_eq!("{icon} All {unread_count}", c.feeds_label);
    assert_eq!("xdg-open {url}", c.enclosure_command);
    assert_eq!(None, c.sync_every_minutes);
    assert_eq!("open {url}", config_defaults(TargetOs::MacOs).enclosure_command);
}

#[test]
fn feeds_follow_their_categories_and_then_their_own_index() {
    assert_eq!(vec![2, 1, 3, 0], sort_categories(&vec![Some(Some(5)), Some(None), None, Some(Some(-1))]));
    let feeds = vec![
        (Some(Some(2)), Some(Some(1))),
        (Some(Some(1)), Some(Some(9))),
        (Some(Some(1)), Some(Some(3))),
        (None, None),
        (Some(Some(1)), Some(Some(3))),
    ];
    assert_eq!(vec![3, 2, 4, 1, 0], sort_feeds(&feeds));
}

#[test]
fn single_keys_find_their_command() {
    let b = generate_default_input_commands();
    assert_eq!(Some("sync".to_owned()), match_single_key_to_single_command(&b, "s"));
    assert_eq!(None, match_single_key_to_single_command(&b, "o"));
    assert_eq!(3, match_single_key(&b, "o").unwrap().len());
    assert_eq!(None, match_single_key(&b, "nothing bound"));
}
