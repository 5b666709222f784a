use aop_app::theme::{palette_table, root_block, token, Palette, ThemeChoice, TokenKind};

/// Every `:root` block in some CSS, each as its declarations in order.
fn root_blocks(css: &str) -> Vec<Vec<(String, String)>> {
    css.split(":root {")
        .skip(1)
        .map(|block| {
            block
                .split('}')
                .next()
                .unwrap_or_default()
                .split(';')
                .filter_map(|declaration| declaration.split_once(':'))
                .map(|(name, value)| (name.trim().to_string(), value.trim().to_string()))
                .filter(|(name, _)| name.starts_with("--"))
                .collect()
        })
        .collect()
}

#[test]
fn the_light_overlay_restates_only_the_tokens_it_changes() {
    let dark = root_blocks(&root_block(Palette::Dark)).remove(0);
    let light = root_blocks(&root_block(Palette::Light)).remove(0);
    assert!(light.len() < dark.len());
    let table = palette_table();
    for (name, _) in &light {
        let stated = table.iter().find(|token| token.name == name).unwrap();
        assert!(stated.light.is_some(), "{name} is restated without changing");
    }
}

#[test]
fn the_dark_block_states_every_token_once_in_the_tables_order() {
    let dark = root_blocks(&root_block(Palette::Dark)).remove(0);
    let table = palette_table();
    assert_eq!(dark.len(), table.len());
    for ((name, value), token) in dark.iter().zip(table.iter()) {
        assert_eq!(name, token.name);
        assert_eq!(value, token.dark);
    }
    assert!(root_block(Palette::Dark).contains("--grid-header: #171d1e;"));
}

#[test]
fn a_token_that_names_another_resolves_to_the_colour_it_names() {
    assert_eq!(Palette::Dark.paint("--focus"), "#81b5b5");
    assert_eq!(Palette::Light.paint("--focus"), "#2f5f5e");
}

#[test]
fn every_colour_in_the_palette_resolves_to_something_a_paint_attribute_can_use() {
    for token in &palette_table() {
        if token.kind != TokenKind::Colour {
            continue;
        }
        for palette in [Palette::Dark, Palette::Light] {
            let resolved = palette
                .colour(token.name)
                .unwrap_or_else(|| panic!("{} resolves to nothing", token.name));
            assert!(
                !resolved.contains("var("),
                "{} is still a name rather than a colour: {resolved}",
                token.name
            );
        }
    }
}

#[test]
fn the_light_palette_answers_with_light_values() {
    assert_eq!(Palette::Dark.paint("--line"), "#27302f");
    assert_eq!(Palette::Light.paint("--line"), "#d2dedd");
}

#[test]
fn a_token_the_light_palette_leaves_alone_keeps_the_sheets_value() {
    assert_eq!(Palette::Light.paint("--on-bar"), "#f2f7f7");
    assert_eq!(Palette::Dark.paint("--on-bar"), "#f2f7f7");
}

#[test]
fn a_font_stack_is_not_offered_as_a_paint() {
    assert!(Palette::Dark.colour("--font").is_none());
    assert!(Palette::Dark.colour("--mono").is_none());
    assert!(Palette::Dark.colour("--shadow").is_none());
    assert!(Palette::Dark.value("--font").unwrap().contains("Inter"));
}

#[test]
fn a_name_the_palette_does_not_have_is_not_a_colour() {
    assert!(Palette::Dark.colour("--nothing-of-the-sort").is_none());
    assert_eq!(Palette::Dark.paint("--nothing-of-the-sort"), "currentColor");
}

#[test]
fn a_value_that_is_not_naming_a_token_is_handed_back_untouched() {
    assert_eq!(Palette::Dark.literal("#123456"), "#123456");
    assert_eq!(Palette::Dark.literal("none"), "none");
    assert_eq!(Palette::Dark.literal("transparent"), "transparent");
    assert_eq!(Palette::Dark.literal("var(--line)"), "#27302f");
    assert_eq!(Palette::Light.literal("var(--line)"), "#d2dedd");
}

#[test]
fn following_the_desktop_reads_as_the_palette_the_sheet_itself_states() {
    assert_eq!(ThemeChoice::System.palette(), Palette::Dark);
    assert_eq!(ThemeChoice::Dark.palette(), Palette::Dark);
    assert_eq!(ThemeChoice::Light.palette(), Palette::Light);
}

#[test]
fn following_the_desktop_is_the_default() {
    assert_eq!(ThemeChoice::default(), ThemeChoice::System);
}

#[test]
fn dark_needs_no_overlay_because_it_is_what_the_sheet_already_says() {
    assert!(ThemeChoice::Dark.overlay().is_empty());
}

#[test]
fn choosing_light_applies_it_whatever_the_desktop_says() {
    let overlay = ThemeChoice::Light.overlay();
    assert!(overlay.contains("--surface: #ffffff"));
    assert!(
        !overlay.contains("prefers-color-scheme"),
        "an explicit choice is not conditional on the desktop"
    );
}

#[test]
fn following_the_desktop_only_lightens_when_it_asks() {
    let overlay = ThemeChoice::System.overlay();
    assert!(overlay.starts_with("@media (prefers-color-scheme: light)"));
    assert!(overlay.contains("--surface: #ffffff"));
}

#[test]
fn every_choice_survives_a_round_trip_through_its_label() {
    for choice in ThemeChoice::ORDER {
        assert_eq!(ThemeChoice::from_label(choice.label()), choice);
    }
}

#[test]
fn a_label_nobody_knows_falls_back_to_following_the_desktop() {
    assert_eq!(ThemeChoice::from_label("Sepia"), ThemeChoice::System);
}

#[test]
fn a_token_is_found_by_its_name_and_only_by_it() {
    let line = token("--line").expect("a token");
    assert_eq!(line.dark, "#27302f");
    assert_eq!(line.light, Some("#d2dedd"));
    assert!(token("line").is_none());
}

#[test]
fn the_font_stack_leads_with_the_bundled_family() {
    assert_eq!(Palette::Dark.font(), Palette::Dark.value("--font").unwrap());
    assert!(Palette::Dark.font().contains("Inter"));
}
