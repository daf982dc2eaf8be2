//! The model of the demo's user interface: what its widgets show and change.

use vstd::prelude::*;
use crate::geometry::{RectI, Vector2I};

verus! {

/// The width of the rotation slider, in pixels.
pub const SLIDER_WIDTH: i32 = 360;

/// The height of the rotation slider, in pixels.
pub const SLIDER_HEIGHT: i32 = 48;

/// The height of the track of the rotation slider, in pixels.
pub const SLIDER_TRACK_HEIGHT: i32 = 24;

/// The width of the knob of the rotation slider, in pixels.
pub const SLIDER_KNOB_WIDTH: i32 = 12;

/// The height of the knob of the rotation slider, in pixels.
pub const SLIDER_KNOB_HEIGHT: i32 = 48;

/// The width of the panel of the text effects, in pixels.
pub const EFFECTS_PANEL_WIDTH: i32 = 550;

/// The width of the menu of background colors, in pixels.
pub const BACKGROUND_PANEL_WIDTH: i32 = 250;

/// The width of the menu of screenshot kinds, in pixels.
pub const SCREENSHOT_PANEL_WIDTH: i32 = 275;

/// The largest distance on a screen that the layout reckons with, in pixels.
pub const MAX_SCREEN_COORDINATE: i32 = 0x100_0000;

/// How the demo shows a scene.
#[derive(Clone, Copy, Debug, PartialEq, Eq, Structural)]
pub enum Mode {
    TwoD,
    ThreeD,
    VR,
}

/// What the demo paints behind a scene.
#[derive(Clone, Copy, Debug, PartialEq, Eq, Structural)]
pub enum BackgroundColor {
    Light,
    Dark,
    Transparent,
}

/// The options of the demo that its user interface starts from.
#[derive(Clone, Copy, Debug, PartialEq, Eq, Structural)]
pub struct Options {
    pub mode: Mode,
    pub background_color: BackgroundColor,
}

/// What the widgets of the demo show.
pub struct DemoUIModel {
    pub mode: Mode,
    pub background_color: BackgroundColor,
    pub gamma_correction_effect_enabled: bool,
    pub stem_darkening_effect_enabled: bool,
    pub subpixel_aa_effect_enabled: bool,
    /// The position of the knob of the rotation slider, in pixels from its left end.
    pub rotation: i32,
    pub message: String,
}

impl DemoUIModel {
    /// Makes the model that the demo starts with: the mode and the background of the
    /// options, no effect enabled, the rotation slider in the middle, and no message.
    pub fn new(options: &Options) -> (model: DemoUIModel)
        ensures
            model.mode == options.mode,
            model.background_color == options.background_color,
            !model.gamma_correction_effect_enabled,
            !model.stem_darkening_effect_enabled,
            !model.subpixel_aa_effect_enabled,
            model.rotation == SLIDER_WIDTH / 2,
            model.message@ == Seq::<char>::empty(),
    {
        DemoUIModel {
            mode: options.mode,
            background_color: options.background_color,
            gamma_correction_effect_enabled: false,
            stem_darkening_effect_enabled: false,
            subpixel_aa_effect_enabled: false,
            rotation: SLIDER_WIDTH / 2,
            message: String::new(),
        }
    }
}

/// The kind of file that a screenshot is saved as.
#[derive(Clone, Copy, Debug, PartialEq, Eq, Structural)]
pub enum ScreenshotType {
    PNG,
    SVG,
}

impl ScreenshotType {
    /// The file name extension of the kind.
    pub fn extension(&self) -> (extension: &'static str)
        ensures
            extension@ == match *self {
                ScreenshotType::PNG => "png"@,
                ScreenshotType::SVG => "svg"@,
            },
    {
        match *self {
            ScreenshotType::PNG => "png",
            ScreenshotType::SVG => "svg",
        }
    }

    /// The name of the kind as a menu shows it.
    pub fn as_str(&self) -> (name: &'static str)
        ensures
            name@ == match *self {
                ScreenshotType::PNG => "PNG"@,
                ScreenshotType::SVG => "SVG"@,
            },
    {
        match *self {
            ScreenshotType::PNG => "PNG",
            ScreenshotType::SVG => "SVG",
        }
    }

    /// The place of the kind in the screenshot menu, from the top.
    pub fn index(&self) -> (index: i32)
        ensures
            index == match *self {
                ScreenshotType::PNG => 0i32,
                ScreenshotType::SVG => 1i32,
            },
    {
        match *self {
            ScreenshotType::PNG => 0,
            ScreenshotType::SVG => 1,
        }
    }
}

/// A screenshot that the user has asked for.
#[derive(Clone, Debug, PartialEq)]
pub struct ScreenshotInfo {
    pub kind: ScreenshotType,
    /// Where to save the screenshot.
    pub path: String,
}

/// What a frame of the user interface has the demo do.
#[derive(Clone, Debug, PartialEq)]
pub enum UIAction {
    /// Nothing.
    NoAction,
    ModelChanged,
    TakeScreenshot(ScreenshotInfo),
    ZoomIn,
    ZoomActualSize,
    ZoomOut,
    /// Rotate the scene to where the knob of the rotation slider stands, in pixels from
    /// the left end of the slider.
    Rotate(i32),
}

/// The sizes of the widgets that the layout is made of, in pixels.
#[derive(Clone, Copy, Debug, PartialEq, Eq, Structural)]
pub struct UIMetrics {
    pub padding: i32,
    pub button_width: i32,
    pub button_height: i32,
    pub button_text_offset: i32,
    pub font_ascent: i32,
    pub tooltip_height: i32,
}

/// Whether a value is a position or a distance on a screen.
pub open spec fn spec_on_screen(v: int) -> bool {
    -MAX_SCREEN_COORDINATE <= v <= MAX_SCREEN_COORDINATE
}

impl UIMetrics {
    /// The sizes are sizes on a screen, none negative.
    pub open spec fn wf(&self) -> bool {
        &&& 0 <= self.padding <= MAX_SCREEN_COORDINATE
        &&& 0 <= self.button_width <= MAX_SCREEN_COORDINATE
        &&& 0 <= self.button_height <= MAX_SCREEN_COORDINATE
        &&& 0 <= self.button_text_offset <= MAX_SCREEN_COORDINATE
        &&& 0 <= self.font_ascent <= MAX_SCREEN_COORDINATE
        &&& 0 <= self.tooltip_height <= MAX_SCREEN_COORDINATE
    }

    /// The height of the panel of the text effects: three switches and the padding around them.
    pub open spec fn spec_effects_panel_height(&self) -> int {
        self.button_height * 3 + self.padding * 4
    }

    /// The height of the menu of background colors: three items.
    pub open spec fn spec_background_panel_height(&self) -> int {
        self.button_height * 3
    }

    /// The height of the menu of screenshot kinds: two items.
    pub open spec fn spec_screenshot_panel_height(&self) -> int {
        self.button_height * 2
    }

    /// The width of the panel of the rotation slider: the slider and the padding beside it.
    pub open spec fn spec_rotate_panel_width(&self) -> int {
        SLIDER_WIDTH + self.padding * 2
    }

    /// The height of the panel of the rotation slider: the slider and the padding around it.
    pub open spec fn spec_rotate_panel_height(&self) -> int {
        self.padding * 2 + SLIDER_HEIGHT
    }

    /// The height of the panel that holds the switches of the text effects.
    pub fn effects_panel_height(&self) -> (height: i32)
        requires
            self.wf(),
        ensures
            height == self.spec_effects_panel_height(),
    {
        self.button_height * 3 + self.padding * 4
    }

    /// The height of the menu of background colors.
    pub fn background_panel_height(&self) -> (height: i32)
        requires
            self.wf(),
        ensures
            height == self.spec_background_panel_height(),
    {
        self.button_height * 3
    }

    /// The height of the menu of screenshot kinds.
    pub fn screenshot_panel_height(&self) -> (height: i32)
        requires
            self.wf(),
        ensures
            height == self.spec_screenshot_panel_height(),
    {
        self.button_height * 2
    }

    /// The width of the panel that holds the rotation slider.
    pub fn rotate_panel_width(&self) -> (width: i32)
        requires
            self.wf(),
        ensures
            width == self.spec_rotate_panel_width(),
    {
        SLIDER_WIDTH + self.padding * 2
    }

    /// The height of the panel that holds the rotation slider.
    pub fn rotate_panel_height(&self) -> (height: i32)
        requires
            self.wf(),
        ensures
            height == self.spec_rotate_panel_height(),
    {
        self.padding * 2 + SLIDER_HEIGHT
    }

    /// Where the strip of buttons starts: at the lower left of the framebuffer, one
    /// padding away from its edges.
    pub fn button_strip_origin(&self, framebuffer_height: i32) -> (origin: Vector2I)
        requires
            self.wf(),
            spec_on_screen(framebuffer_height as int),
        ensures
            origin.x == self.padding,
            origin.y == framebuffer_height - self.padding - self.button_height,
    {
        let bottom: i32 = framebuffer_height - self.padding;
        Vector2I::new(self.padding, bottom - self.button_height)
    }

    /// Where the widget after one of the given width stands in the strip of buttons.
    pub fn next_in_strip(&self, position: Vector2I, width: i32) -> (next: Vector2I)
        requires
            self.wf(),
            spec_on_screen(position.x as int),
            spec_on_screen(width as int),
        ensures
            next.x == position.x + width + self.padding,
            next.y == position.y,
    {
        Vector2I::new(position.x + (width + self.padding), position.y)
    }

    /// The top of a panel of the given height that opens above the strip of buttons.
    pub fn panel_y(&self, framebuffer_height: i32, panel_height: i32) -> (y: i32)
        requires
            self.wf(),
            spec_on_screen(framebuffer_height as int),
            0 <= panel_height <= 8 * MAX_SCREEN_COORDINATE,
        ensures
            y == framebuffer_height - self.padding - (self.button_height + self.padding
                + panel_height),
    {
        let bottom: i32 = framebuffer_height - self.padding;
        bottom - (self.button_height + self.padding + panel_height)
    }

    /// The rectangle of the item with the given index in a menu: the items are as wide
    /// as the menu of background colors and as high as a button, one below the other.
    pub fn menu_item_rect(&self, panel_position: Vector2I, index: i32) -> (rect: RectI)
        requires
            self.wf(),
            spec_on_screen(panel_position.x as int),
            spec_on_screen(panel_position.y as int),
            spec_on_screen(self.button_height * index),
        ensures
            rect.origin.x == panel_position.x,
            rect.origin.y == panel_position.y + self.button_height * index,
            rect.spec_width() == BACKGROUND_PANEL_WIDTH,
            rect.spec_height() == self.button_height,
    {
        let origin: Vector2I = Vector2I::new(
            panel_position.x,
            panel_position.y + self.button_height * index,
        );
        RectI::new(
            origin,
            Vector2I::new(origin.x + BACKGROUND_PANEL_WIDTH, origin.y + self.button_height),
        )
    }

    /// Where the text of a menu item starts.
    pub fn menu_item_text_position(&self, widget_rect: RectI) -> (position: Vector2I)
        requires
            self.wf(),
            spec_on_screen(widget_rect.origin.x as int),
            spec_on_screen(widget_rect.origin.y as int),
        ensures
            position.x == widget_rect.origin.x + self.padding * 2,
            position.y == widget_rect.origin.y + self.button_text_offset,
    {
        Vector2I::new(
            widget_rect.origin.x + self.padding * 2,
            widget_rect.origin.y + self.button_text_offset,
        )
    }

    /// Where the label of the effects switch with the given index starts.
    pub fn effects_switch_text_position(&self, index: i32, window_y: i32) -> (position: Vector2I)
        requires
            self.wf(),
            spec_on_screen(window_y as int),
            spec_on_screen((self.button_height + self.padding) * index),
        ensures
            position.x == self.padding * 2,
            position.y == window_y + self.padding + self.button_text_offset + (self.button_height
                + self.padding) * index,
    {
        let row: i32 = self.button_height + self.padding;
        Vector2I::new(
            self.padding * 2,
            window_y + self.padding + self.button_text_offset + row * index,
        )
    }

    /// Where the effects switch with the given index stands: at the right of the panel.
    pub fn effects_switch_position(&self, index: i32, window_y: i32, switch_width: i32) -> (position:
        Vector2I)
        requires
            self.wf(),
            spec_on_screen(window_y as int),
            spec_on_screen(switch_width as int),
            spec_on_screen((self.button_height + self.padding) * index),
        ensures
            position.x == self.padding + EFFECTS_PANEL_WIDTH - (switch_width + self.padding),
            position.y == window_y + self.padding + (self.button_height + self.padding) * index,
    {
        let row: i32 = self.button_height + self.padding;
        Vector2I::new(
            self.padding + EFFECTS_PANEL_WIDTH - (switch_width + self.padding),
            window_y + self.padding + row * index,
        )
    }

    /// The rectangle in which the rotation slider takes the mouse.
    pub fn rotate_widget_rect(&self, rotate_panel_x: i32, rotate_panel_y: i32) -> (rect: RectI)
        requires
            self.wf(),
            spec_on_screen(rotate_panel_x as int),
            spec_on_screen(rotate_panel_y as int),
        ensures
            rect.origin.x == rotate_panel_x + self.padding,
            rect.origin.y == rotate_panel_y + self.padding,
            rect.spec_width() == SLIDER_WIDTH,
            rect.spec_height() == SLIDER_KNOB_HEIGHT,
    {
        let origin: Vector2I = Vector2I::new(
            rotate_panel_x + self.padding,
            rotate_panel_y + self.padding,
        );
        RectI::new(origin, Vector2I::new(origin.x + SLIDER_WIDTH, origin.y + SLIDER_KNOB_HEIGHT))
    }

    /// The rectangle of the track of the rotation slider: as wide as the slider, and
    /// centered on the knob from top to bottom.
    pub fn slider_track_rect(&self, rotate_panel_x: i32, rotate_panel_y: i32) -> (rect: RectI)
        requires
            self.wf(),
            spec_on_screen(rotate_panel_x as int),
            spec_on_screen(rotate_panel_y as int),
        ensures
            rect.origin.x == rotate_panel_x + self.padding,
            rect.origin.y == rotate_panel_y + self.padding + SLIDER_KNOB_HEIGHT / 2
                - SLIDER_TRACK_HEIGHT / 2,
            rect.spec_width() == SLIDER_WIDTH,
            rect.spec_height() == SLIDER_TRACK_HEIGHT,
    {
        let origin: Vector2I = Vector2I::new(
            rotate_panel_x + self.padding,
            rotate_panel_y + self.padding + SLIDER_KNOB_HEIGHT / 2 - SLIDER_TRACK_HEIGHT / 2,
        );
        RectI::new(origin, Vector2I::new(origin.x + SLIDER_WIDTH, origin.y + SLIDER_TRACK_HEIGHT))
    }

    /// The rectangle of the knob of the rotation slider, centered on the rotation of the
    /// model from left to right.
    pub fn slider_knob_rect(&self, rotate_panel_x: i32, rotate_panel_y: i32, rotation: i32) -> (rect:
        RectI)
        requires
            self.wf(),
            spec_on_screen(rotate_panel_x as int),
            spec_on_screen(rotate_panel_y as int),
            spec_on_screen(rotation as int),
        ensures
            rect.origin.x == rotate_panel_x + self.padding + rotation - SLIDER_KNOB_WIDTH / 2,
            rect.origin.y == rotate_panel_y + self.padding,
            rect.spec_width() == SLIDER_KNOB_WIDTH,
            rect.spec_height() == SLIDER_KNOB_HEIGHT,
    {
        let origin: Vector2I = Vector2I::new(
            rotate_panel_x + self.padding + rotation - SLIDER_KNOB_WIDTH / 2,
            rotate_panel_y + self.padding,
        );
        RectI::new(
            origin,
            Vector2I::new(origin.x + SLIDER_KNOB_WIDTH, origin.y + SLIDER_KNOB_HEIGHT),
        )
    }

    /// The rectangle of the window that shows a message of the given width: at the upper
    /// left of the framebuffer, with one padding around the text.
    pub fn message_window_rect(&self, message_size: i32) -> (rect: RectI)
        requires
            self.wf(),
            0 <= message_size <= MAX_SCREEN_COORDINATE,
        ensures
            rect.origin.x == self.padding,
            rect.origin.y == self.padding,
            rect.spec_width() == self.padding * 2 + message_size,
            rect.spec_height() == self.tooltip_height,
    {
        let origin: Vector2I = Vector2I::new(self.padding, self.padding);
        RectI::new(
            origin,
            Vector2I::new(
                origin.x + (self.padding * 2 + message_size),
                origin.y + self.tooltip_height,
            ),
        )
    }

    /// Where the text of a message starts within its window.
    pub fn message_text_position(&self) -> (position: Vector2I)
        requires
            self.wf(),
        ensures
            position.x == self.padding * 2,
            position.y == self.padding * 2 + self.font_ascent,
    {
        Vector2I::new(self.padding + self.padding, self.padding + (self.padding + self.font_ascent))
    }
}

/// Whether the effect of the given row of the panel of text effects is enabled: the
/// gamma correction, the stem darkening or the subpixel rendering.
pub open spec fn spec_effect_enabled(model: DemoUIModel, row: u8) -> bool {
    if row == 0 {
        model.gamma_correction_effect_enabled
    } else if row == 1 {
        model.stem_darkening_effect_enabled
    } else if row == 2 {
        model.subpixel_aa_effect_enabled
    } else {
        false
    }
}

/// The mode that a segment of the mode switch stands for.
pub open spec fn spec_mode_of_segment(segment: u8) -> Mode {
    if segment == 0 {
        Mode::TwoD
    } else if segment == 1 {
        Mode::ThreeD
    } else {
        Mode::VR
    }
}

impl Mode {
    /// The segment of the mode switch that stands for the mode.
    pub open spec fn spec_segment(&self) -> u8 {
        match *self {
            Mode::TwoD => 0,
            Mode::ThreeD => 1,
            Mode::VR => 2,
        }
    }

    /// Tells the segment of the mode switch that stands for the mode.
    pub fn segment(&self) -> (segment: u8)
        ensures
            segment == self.spec_segment(),
    {
        match *self {
            Mode::TwoD => 0,
            Mode::ThreeD => 1,
            Mode::VR => 2,
        }
    }
}

impl BackgroundColor {
    /// The name of the color as a menu shows it.
    pub fn as_str(&self) -> (name: &'static str)
        ensures
            name@ == match *self {
                BackgroundColor::Light => "Light"@,
                BackgroundColor::Dark => "Dark"@,
                BackgroundColor::Transparent => "Transparent"@,
            },
    {
        match *self {
            BackgroundColor::Light => "Light",
            BackgroundColor::Dark => "Dark",
            BackgroundColor::Transparent => "Transparent",
        }
    }

    /// The place of the color in the menu of background colors, from the top.
    pub fn index(&self) -> (index: i32)
        ensures
            index == match *self {
                BackgroundColor::Light => 0i32,
                BackgroundColor::Dark => 1i32,
                BackgroundColor::Transparent => 2i32,
            },
    {
        match *self {
            BackgroundColor::Light => 0,
            BackgroundColor::Dark => 1,
            BackgroundColor::Transparent => 2,
        }
    }
}

/// Which panels of the user interface are open. The presenter decides; drawing the
/// widgets and asking them what the user did is left to whoever holds the device.
#[derive(Clone, Copy, Debug, PartialEq, Eq, Structural)]
pub struct DemoUIPresenter {
    pub effects_panel_visible: bool,
    pub background_panel_visible: bool,
    pub screenshot_panel_visible: bool,
    pub rotate_panel_visible: bool,
    pub show_text_effects: bool,
}

impl DemoUIPresenter {
    /// Makes the presenter that the demo starts with: no panel open, and the button of
    /// the text effects shown.
    pub fn new() -> (presenter: DemoUIPresenter)
        ensures
            presenter == (DemoUIPresenter {
                effects_panel_visible: false,
                background_panel_visible: false,
                screenshot_panel_visible: false,
                rotate_panel_visible: false,
                show_text_effects: true,
            }),
    {
        DemoUIPresenter {
            effects_panel_visible: false,
            background_panel_visible: false,
            screenshot_panel_visible: false,
            rotate_panel_visible: false,
            show_text_effects: true,
        }
    }

    /// Sets whether the button of the text effects is shown.
    pub fn set_show_text_effects(&mut self, show_text_effects: bool)
        ensures
            *final(self) == (DemoUIPresenter { show_text_effects, ..*old(self) }),
    {
        self.show_text_effects = show_text_effects;
    }

    /// Tells whether the button of the text effects is shown.
    pub fn shows_text_effects_button(&self) -> (shown: bool)
        ensures
            shown == self.show_text_effects,
    {
        self.show_text_effects
    }

    /// Tells whether the panel of the text effects is open.
    pub fn shows_effects_panel(&self) -> (shown: bool)
        ensures
            shown == self.effects_panel_visible,
    {
        self.effects_panel_visible
    }

    /// Tells whether the menu of background colors is open.
    pub fn shows_background_panel(&self) -> (shown: bool)
        ensures
            shown == self.background_panel_visible,
    {
        self.background_panel_visible
    }

    /// Tells whether the menu of screenshot kinds is open.
    pub fn shows_screenshot_panel(&self) -> (shown: bool)
        ensures
            shown == self.screenshot_panel_visible,
    {
        self.screenshot_panel_visible
    }

    /// Tells whether the panel of the rotation slider is open.
    pub fn shows_rotate_panel(&self) -> (shown: bool)
        ensures
            shown == self.rotate_panel_visible,
    {
        self.rotate_panel_visible
    }

    /// Tells what the effects switch in the given row shows: one where the effect of the
    /// row is enabled, else zero. The rows are, from the top, the gamma correction, the
    /// stem darkening and the subpixel rendering; a row below them shows zero.
    pub fn effects_switch_value(model: &DemoUIModel, row: u8) -> (value: u8)
        ensures
            value == if spec_effect_enabled(*model, row) {
                1u8
            } else {
                0u8
            },
    {
        let enabled: bool = if row == 0 {
            model.gamma_correction_effect_enabled
        } else if row == 1 {
            model.stem_darkening_effect_enabled
        } else if row == 2 {
            model.subpixel_aa_effect_enabled
        } else {
            false
        };
        if enabled {
            1
        } else {
            0
        }
    }

    /// Takes the value that the effects switch in the given row stands on: the effect of
    /// the row is enabled where the value is not zero, and the rest of the model stays
    /// as it is. A row below the three switches changes nothing.
    pub fn effects_switch(model: &mut DemoUIModel, row: u8, value: u8)
        ensures
            row == 0 ==> *final(model) == (DemoUIModel {
                gamma_correction_effect_enabled: value != 0,
                ..*old(model)
            }),
            row == 1 ==> *final(model) == (DemoUIModel {
                stem_darkening_effect_enabled: value != 0,
                ..*old(model)
            }),
            row == 2 ==> *final(model) == (DemoUIModel {
                subpixel_aa_effect_enabled: value != 0,
                ..*old(model)
            }),
            row > 2 ==> *final(model) == *old(model),
    {
        if row == 0 {
            model.gamma_correction_effect_enabled = value != 0;
        } else if row == 1 {
            model.stem_darkening_effect_enabled = value != 0;
        } else if row == 2 {
            model.subpixel_aa_effect_enabled = value != 0;
        }
    }

    /// Takes what the button of the text effects says: a click opens or closes the
    /// panel. Returns whether the tooltip of the button is to be shown: while the panel
    /// is closed.
    pub fn effects_button(&mut self, clicked: bool) -> (show_tooltip: bool)
        ensures
            *final(self) == (DemoUIPresenter {
                effects_panel_visible: old(self).effects_panel_visible != clicked,
                ..*old(self)
            }),
            show_tooltip == !final(self).effects_panel_visible,
    {
        if clicked {
            self.effects_panel_visible = !self.effects_panel_visible;
        }
        !self.effects_panel_visible
    }

    /// Takes what the screenshot button says: a click opens or closes the menu. Returns
    /// whether the tooltip of the button is to be shown: while the menu is closed.
    pub fn screenshot_button(&mut self, clicked: bool) -> (show_tooltip: bool)
        ensures
            *final(self) == (DemoUIPresenter {
                screenshot_panel_visible: old(self).screenshot_panel_visible != clicked,
                ..*old(self)
            }),
            show_tooltip == !final(self).screenshot_panel_visible,
    {
        if clicked {
            self.screenshot_panel_visible = !self.screenshot_panel_visible;
        }
        !self.screenshot_panel_visible
    }

    /// Takes what the background button says: a click opens or closes the menu. Returns
    /// whether the tooltip of the button is to be shown: while the menu is closed.
    pub fn background_button(&mut self, clicked: bool) -> (show_tooltip: bool)
        ensures
            *final(self) == (DemoUIPresenter {
                background_panel_visible: old(self).background_panel_visible != clicked,
                ..*old(self)
            }),
            show_tooltip == !final(self).background_panel_visible,
    {
        if clicked {
            self.background_panel_visible = !self.background_panel_visible;
        }
        !self.background_panel_visible
    }

    /// Takes what the rotate button says: a click opens or closes the panel. Returns
    /// whether the tooltip of the button is to be shown: while the panel is closed.
    pub fn rotate_button(&mut self, clicked: bool) -> (show_tooltip: bool)
        ensures
            *final(self) == (DemoUIPresenter {
                rotate_panel_visible: old(self).rotate_panel_visible != clicked,
                ..*old(self)
            }),
            show_tooltip == !final(self).rotate_panel_visible,
    {
        if clicked {
            self.rotate_panel_visible = !self.rotate_panel_visible;
        }
        !self.rotate_panel_visible
    }

    /// Takes the segment that the mode switch stands on. Where it differs from that of
    /// the model, the model takes the mode of the segment and the action says so.
    pub fn mode_switch(model: &mut DemoUIModel, action: &mut UIAction, new_mode: u8)
        ensures
            new_mode == old(model).mode.spec_segment() ==> *final(model) == *old(model)
                && *final(action) == *old(action),
            new_mode != old(model).mode.spec_segment() ==> *final(model) == (DemoUIModel {
                mode: spec_mode_of_segment(new_mode),
                ..*old(model)
            }) && *final(action) == UIAction::ModelChanged,
    {
        if new_mode != model.mode.segment() {
            model.mode = if new_mode == 0 {
                Mode::TwoD
            } else if new_mode == 1 {
                Mode::ThreeD
            } else {
                Mode::VR
            };
            *action = UIAction::ModelChanged;
        }
    }

    /// Takes the segment of the zoom control that was clicked, if any.
    pub fn zoom_control(action: &mut UIAction, clicked_segment: Option<u8>)
        ensures
            *final(action) == match clicked_segment {
                Some(0) => UIAction::ZoomIn,
                Some(1) => UIAction::ZoomActualSize,
                Some(2) => UIAction::ZoomOut,
                _ => *old(action),
            },
    {
        match clicked_segment {
            Some(0) => {
                *action = UIAction::ZoomIn;
            },
            Some(1) => {
                *action = UIAction::ZoomActualSize;
            },
            Some(2) => {
                *action = UIAction::ZoomOut;
            },
            _ => {},
        }
    }

    /// Takes what an item of the menu of background colors says: a click gives the model
    /// the color of the item.
    pub fn background_menu_item(
        model: &mut DemoUIModel,
        action: &mut UIAction,
        color: BackgroundColor,
        clicked: bool,
    )
        ensures
            !clicked ==> *final(model) == *old(model) && *final(action) == *old(action),
            clicked ==> *final(model) == (DemoUIModel { background_color: color, ..*old(model) })
                && *final(action) == UIAction::ModelChanged,
    {
        if clicked {
            model.background_color = color;
            *action = UIAction::ModelChanged;
        }
    }

    /// Takes what came of an item of the screenshot menu: where the user clicked the
    /// item and chose a path, the menu closes and the action asks for the screenshot.
    pub fn screenshot_menu_item(
        &mut self,
        action: &mut UIAction,
        screenshot_type: ScreenshotType,
        chosen_path: Option<String>,
    )
        ensures
            chosen_path is None ==> *final(self) == *old(self) && *final(action) == *old(action),
            chosen_path is Some ==> *final(self) == (DemoUIPresenter {
                screenshot_panel_visible: false,
                ..*old(self)
            }) && *final(action) == UIAction::TakeScreenshot(
                ScreenshotInfo { kind: screenshot_type, path: chosen_path->Some_0 },
            ),
    {
        match chosen_path {
            Some(path) => {
                self.screenshot_panel_visible = false;
                *action = UIAction::TakeScreenshot(ScreenshotInfo { kind: screenshot_type, path });
            },
            None => {},
        }
    }

    /// Takes where the mouse holds the knob of the rotation slider, if it does: the
    /// model takes the position as its rotation and the action says so.
    pub fn rotate_slider(model: &mut DemoUIModel, action: &mut UIAction, position_x: Option<i32>)
        ensures
            position_x is None ==> *final(model) == *old(model) && *final(action) == *old(action),
            position_x is Some ==> *final(model) == (DemoUIModel {
                rotation: position_x->Some_0,
                ..*old(model)
            }) && *final(action) == UIAction::Rotate(position_x->Some_0),
    {
        match position_x {
            Some(x) => {
                model.rotation = x;
                *action = UIAction::Rotate(x);
            },
            None => {},
        }
    }

    /// Whether the rotate button and the zoom control are shown: in the flat mode only.
    pub fn shows_rotate_and_zoom(model: &DemoUIModel) -> (shown: bool)
        ensures
            shown == (model.mode == Mode::TwoD),
    {
        match model.mode {
            Mode::TwoD => true,
            _ => false,
        }
    }
}

} // verus!
