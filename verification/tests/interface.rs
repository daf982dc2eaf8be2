use scene_builder::font_loader::{
    add_reference, file_time, font_file_key, fragment_in_bounds, guids_are_equal,
    is_font_file_key, query_interface, release_reference, FontFileEnumeratorState, Guid,
    QueryOutcome,
};
use scene_builder::geometry::{RectI, Vector2I};
use scene_builder::ui::{
    BackgroundColor, DemoUIModel, DemoUIPresenter, Mode, Options, ScreenshotInfo, ScreenshotType,
    UIAction, UIMetrics, SLIDER_WIDTH,
};

fn options() -> Options {
    Options { mode: Mode::ThreeD, background_color: BackgroundColor::Dark }
}

fn metrics() -> UIMetrics {
    UIMetrics {
        padding: 12,
        button_width: 72,
        button_height: 72,
        button_text_offset: 48,
        font_ascent: 28,
        tooltip_height: 52,
    }
}

fn rect(x: i32, y: i32, width: i32, height: i32) -> RectI {
    RectI { origin: Vector2I { x, y }, lower_right: Vector2I { x: x + width, y: y + height } }
}

#[test]
fn model_starts_from_the_options() {
    let model = DemoUIModel::new(&options());
    assert_eq!(model.mode, Mode::ThreeD);
    assert_eq!(model.background_color, BackgroundColor::Dark);
    assert!(!model.gamma_correction_effect_enabled);
    assert!(!model.stem_darkening_effect_enabled);
    assert!(!model.subpixel_aa_effect_enabled);
    assert_eq!(model.rotation, 180);
    assert_eq!(model.rotation, SLIDER_WIDTH / 2);
    assert_eq!(model.message, "");
}

#[test]
fn screenshot_kinds_have_their_names() {
    assert_eq!(ScreenshotType::PNG.extension(), "png");
    assert_eq!(ScreenshotType::SVG.extension(), "svg");
    assert_eq!(ScreenshotType::PNG.as_str(), "PNG");
    assert_eq!(ScreenshotType::SVG.as_str(), "SVG");
    assert_eq!(ScreenshotType::PNG.index(), 0);
    assert_eq!(ScreenshotType::SVG.index(), 1);
    assert_eq!(BackgroundColor::Light.as_str(), "Light");
    assert_eq!(BackgroundColor::Dark.as_str(), "Dark");
    assert_eq!(BackgroundColor::Transparent.as_str(), "Transparent");
    assert_eq!(BackgroundColor::Transparent.index(), 2);
}

#[test]
fn buttons_open_and_close_their_panels() {
    let mut presenter = DemoUIPresenter::new();
    assert!(presenter.show_text_effects);
    assert!(presenter.effects_button(false));
    assert!(!presenter.effects_button(true));
    assert!(presenter.effects_panel_visible);
    assert!(!presenter.effects_button(false));
    assert!(presenter.effects_button(true));
    assert!(!presenter.screenshot_button(true));
    assert!(!presenter.background_button(true));
    assert!(!presenter.rotate_button(true));
    assert!(presenter.screenshot_panel_visible);
    assert!(presenter.background_panel_visible);
    assert!(presenter.rotate_panel_visible);
    assert!(!presenter.effects_panel_visible);
    presenter.set_show_text_effects(false);
    assert!(!presenter.show_text_effects);
}

#[test]
fn mode_switch_changes_the_model_only_when_it_moves() {
    let mut model = DemoUIModel::new(&options());
    let mut action = UIAction::NoAction;
    DemoUIPresenter::mode_switch(&mut model, &mut action, 1);
    assert_eq!(model.mode, Mode::ThreeD);
    assert_eq!(action, UIAction::NoAction);
    DemoUIPresenter::mode_switch(&mut model, &mut action, 0);
    assert_eq!(model.mode, Mode::TwoD);
    assert_eq!(action, UIAction::ModelChanged);
    assert!(DemoUIPresenter::shows_rotate_and_zoom(&model));
    DemoUIPresenter::mode_switch(&mut model, &mut action, 9);
    assert_eq!(model.mode, Mode::VR);
    assert!(!DemoUIPresenter::shows_rotate_and_zoom(&model));
    assert_eq!(Mode::VR.segment(), 2);
}

#[test]
fn widgets_set_the_action() {
    let mut action = UIAction::NoAction;
    DemoUIPresenter::zoom_control(&mut action, None);
    assert_eq!(action, UIAction::NoAction);
    DemoUIPresenter::zoom_control(&mut action, Some(0));
    assert_eq!(action, UIAction::ZoomIn);
    DemoUIPresenter::zoom_control(&mut action, Some(1));
    assert_eq!(action, UIAction::ZoomActualSize);
    DemoUIPresenter::zoom_control(&mut action, Some(2));
    assert_eq!(action, UIAction::ZoomOut);
    DemoUIPresenter::zoom_control(&mut action, Some(3));
    assert_eq!(action, UIAction::ZoomOut);

    let mut model = DemoUIModel::new(&options());
    DemoUIPresenter::background_menu_item(&mut model, &mut action, BackgroundColor::Light, false);
    assert_eq!(model.background_color, BackgroundColor::Dark);
    assert_eq!(action, UIAction::ZoomOut);
    DemoUIPresenter::background_menu_item(&mut model, &mut action, BackgroundColor::Light, true);
    assert_eq!(model.background_color, BackgroundColor::Light);
    assert_eq!(action, UIAction::ModelChanged);

    DemoUIPresenter::rotate_slider(&mut model, &mut action, None);
    assert_eq!(model.rotation, 180);
    DemoUIPresenter::rotate_slider(&mut model, &mut action, Some(90));
    assert_eq!(model.rotation, 90);
    assert_eq!(action, UIAction::Rotate(90));

    let mut presenter = DemoUIPresenter::new();
    presenter.screenshot_button(true);
    presenter.screenshot_menu_item(&mut action, ScreenshotType::SVG, None);
    assert!(presenter.screenshot_panel_visible);
    assert_eq!(action, UIAction::Rotate(90));
    presenter.screenshot_menu_item(&mut action, ScreenshotType::SVG, Some(String::from("a.svg")));
    assert!(!presenter.screenshot_panel_visible);
    assert_eq!(
        action,
        UIAction::TakeScreenshot(ScreenshotInfo {
            kind: ScreenshotType::SVG,
            path: String::from("a.svg")
        })
    );
}

#[test]
fn layout_follows_the_metrics() {
    let metrics = metrics();
    assert_eq!(metrics.effects_panel_height(), 72 * 3 + 12 * 4);
    assert_eq!(metrics.background_panel_height(), 216);
    assert_eq!(metrics.screenshot_panel_height(), 144);
    assert_eq!(metrics.rotate_panel_width(), 384);
    assert_eq!(metrics.rotate_panel_height(), 72);
    let origin = metrics.button_strip_origin(600);
    assert_eq!(origin, Vector2I { x: 12, y: 600 - 12 - 72 });
    assert_eq!(metrics.next_in_strip(origin, 72), Vector2I { x: 96, y: 516 });
    assert_eq!(metrics.panel_y(600, 144), 600 - 12 - (72 + 12 + 144));
    assert_eq!(metrics.menu_item_rect(Vector2I { x: 96, y: 360 }, 1), rect(96, 432, 250, 72));
    assert_eq!(
        metrics.menu_item_text_position(rect(96, 432, 250, 72)),
        Vector2I { x: 120, y: 480 }
    );
    assert_eq!(metrics.effects_switch_text_position(2, 100), Vector2I { x: 24, y: 100 + 12 + 48 + 168 });
    assert_eq!(
        metrics.effects_switch_position(1, 100, 192),
        Vector2I { x: 12 + 550 - 204, y: 100 + 12 + 84 }
    );
    assert_eq!(metrics.rotate_widget_rect(300, 400), rect(312, 412, 360, 48));
    assert_eq!(metrics.slider_track_rect(300, 400), rect(312, 424, 360, 24));
    assert_eq!(metrics.slider_knob_rect(300, 400, 180), rect(312 + 180 - 6, 412, 12, 48));
    assert_eq!(metrics.message_window_rect(100), rect(12, 12, 124, 52));
    assert_eq!(metrics.message_text_position(), Vector2I { x: 24, y: 52 });
}

#[test]
fn enumerator_stands_on_its_file_once() {
    let start = FontFileEnumeratorState::Start;
    assert!(!start.has_current_file());
    let (state, has) = start.move_next();
    assert_eq!((state, has), (FontFileEnumeratorState::AtBuffer, true));
    assert!(state.has_current_file());
    let (state, has) = state.move_next();
    assert_eq!((state, has), (FontFileEnumeratorState::End, false));
    assert!(!state.has_current_file());
    assert_eq!(state.move_next(), (FontFileEnumeratorState::End, false));
}

#[test]
fn font_file_key_is_the_word_memory() {
    assert_eq!(&font_file_key(), b"MEMORY");
    assert!(is_font_file_key(b"MEMORY"));
    assert!(!is_font_file_key(b"MEMORX"));
    assert!(!is_font_file_key(b"MEMOR"));
    assert!(!is_font_file_key(b"MEMORYY"));
    assert!(!is_font_file_key(b""));
}

#[test]
fn fragment_must_lie_within_the_file() {
    assert!(fragment_in_bounds(10, 0, 10));
    assert!(fragment_in_bounds(10, 10, 0));
    assert!(!fragment_in_bounds(10, 11, 0));
    assert!(!fragment_in_bounds(10, 4, 7));
    assert!(!fragment_in_bounds(10, 1, u64::MAX));
    assert!(fragment_in_bounds(0, 0, 0));
}

#[test]
fn file_time_joins_its_halves() {
    assert_eq!(file_time(0, 0), 0);
    assert_eq!(file_time(1, 2), 0x1_0000_0002);
    assert_eq!(file_time(u32::MAX, u32::MAX), u64::MAX);
}

#[test]
fn references_are_counted_up_and_down() {
    assert_eq!(add_reference(1), 2);
    assert_eq!(release_reference(2), (1, false));
    assert_eq!(release_reference(1), (0, true));
}

fn guid(data1: u32, last: u8) -> Guid {
    Guid { data1, data2: 2, data3: 3, data4: [0, 1, 2, 3, 4, 5, 6, last] }
}

#[test]
fn object_answers_to_its_own_interfaces_only() {
    let unknown = guid(0, 0x46);
    let class = guid(0xcca920e4, 0x68);
    assert!(guids_are_equal(&class, &guid(0xcca920e4, 0x68)));
    assert!(!guids_are_equal(&class, &guid(0xcca920e4, 0x69)));
    assert!(!guids_are_equal(&class, &guid(0xcca920e5, 0x68)));
    assert_eq!(query_interface(true, &class, &unknown, &class), QueryOutcome::InvalidPointer);
    assert_eq!(query_interface(false, &class, &unknown, &class), QueryOutcome::Found);
    assert_eq!(query_interface(false, &unknown, &unknown, &class), QueryOutcome::Found);
    assert_eq!(query_interface(false, &guid(7, 7), &unknown, &class), QueryOutcome::NoInterface);
}

#[test]
fn effects_switch_sets_the_flag_of_its_row_only() {
    let mut model = DemoUIModel::new(&options());
    assert_eq!(DemoUIPresenter::effects_switch_value(&model, 1), 0);
    DemoUIPresenter::effects_switch(&mut model, 1, 1);
    assert!(model.stem_darkening_effect_enabled);
    assert!(!model.gamma_correction_effect_enabled);
    assert!(!model.subpixel_aa_effect_enabled);
    assert_eq!(DemoUIPresenter::effects_switch_value(&model, 1), 1);
    assert_eq!(DemoUIPresenter::effects_switch_value(&model, 0), 0);
    DemoUIPresenter::effects_switch(&mut model, 0, 7);
    DemoUIPresenter::effects_switch(&mut model, 2, 1);
    assert!(model.gamma_correction_effect_enabled);
    assert!(model.subpixel_aa_effect_enabled);
    DemoUIPresenter::effects_switch(&mut model, 1, 0);
    assert!(!model.stem_darkening_effect_enabled);
    assert!(model.gamma_correction_effect_enabled);
    DemoUIPresenter::effects_switch(&mut model, 3, 0);
    assert!(model.gamma_correction_effect_enabled);
    assert!(model.subpixel_aa_effect_enabled);
    assert_eq!(DemoUIPresenter::effects_switch_value(&model, 3), 0);
    assert_eq!(model.mode, Mode::ThreeD);
    assert_eq!(model.rotation, 180);
}

#[test]
fn presenter_tells_which_panels_are_open() {
    let mut presenter = DemoUIPresenter::new();
    assert!(presenter.shows_text_effects_button());
    assert!(!presenter.shows_effects_panel());
    assert!(!presenter.shows_background_panel());
    assert!(!presenter.shows_screenshot_panel());
    assert!(!presenter.shows_rotate_panel());
    presenter.effects_button(true);
    presenter.rotate_button(true);
    presenter.set_show_text_effects(false);
    assert!(!presenter.shows_text_effects_button());
    assert!(presenter.shows_effects_panel());
    assert!(presenter.shows_rotate_panel());
    assert!(!presenter.shows_background_panel());
    presenter.background_button(true);
    presenter.screenshot_button(true);
    assert!(presenter.shows_background_panel());
    assert!(presenter.shows_screenshot_panel());
}

#[test]
fn menu_items_far_down_a_menu_are_laid_out_alike() {
    let metrics = metrics();
    assert_eq!(metrics.menu_item_rect(Vector2I { x: 0, y: 0 }, 100), rect(0, 7200, 250, 72));
    assert_eq!(metrics.menu_item_rect(Vector2I { x: 0, y: 0 }, -1), rect(0, -72, 250, 72));
    assert_eq!(metrics.effects_switch_text_position(20, 0), Vector2I { x: 24, y: 12 + 48 + 1680 });
}
