use svitek::config::{
    config_path, load, ColorOverrides, Colors, Config, ConfigFile, Mode, Overrides, Position,
};

fn nothing() -> Overrides {
    Overrides {
        thumbnail_width: None,
        position: None,
        close_on_select: None,
        mode: None,
        hold_selects_next: None,
        colors: None,
    }
}

#[test]
fn no_keys_are_the_defaults() {
    let d = Config::default();
    assert_eq!(Config::with(nothing()), d);
    assert_eq!(d.thumbnail_width, 240);
    assert_eq!(d.position, Position::Center);
    assert_eq!(d.mode, Mode::Toggle);
    assert!(d.close_on_select);
    assert!(d.hold_selects_next);
    assert_eq!(d.colors, Colors::default());
}

#[test]
fn one_key_changes_one_thing() {
    let c = Config::with(Overrides { thumbnail_width: Some(300), ..nothing() });
    assert_eq!(c.thumbnail_width, 300);
    assert_eq!(c.position, Config::default().position);
    let c = Config::with(Overrides {
        position: Some(Position::Right),
        close_on_select: Some(false),
        mode: Some(Mode::Hold),
        hold_selects_next: Some(false),
        ..nothing()
    });
    assert_eq!((c.position, c.mode), (Position::Right, Mode::Hold));
    assert!(!c.close_on_select && !c.hold_selects_next);
    assert_eq!(c.colors, Colors::default());
}

#[test]
fn one_color_leaves_the_others() {
    let colors = ColorOverrides {
        background: None,
        foreground: None,
        dim: None,
        focused: Some("#ff0000".to_string()),
    };
    let c = Config::with(Overrides { colors: Some(colors), ..nothing() });
    assert_eq!(c.colors.focused, "#ff0000");
    assert_eq!(c.colors.background, Colors::default().background);
    assert_eq!(c.colors.dim, Colors::default().dim);
}

#[test]
fn a_file_that_cannot_be_used_is_complained_about() {
    let path = Some("/home/u/.config/svitek/config.toml");
    assert_eq!(load(path, ConfigFile::Missing), (Config::default(), None));
    assert_eq!(
        load(path, ConfigFile::Unreadable("permission denied".to_string())),
        (
            Config::default(),
            Some("/home/u/.config/svitek/config.toml: permission denied".to_string())
        )
    );
    assert_eq!(
        load(path, ConfigFile::Malformed("unknown field".to_string())).1,
        Some("/home/u/.config/svitek/config.toml: unknown field".to_string())
    );
    let parsed = Overrides { thumbnail_width: Some(100), ..nothing() };
    let (c, complaint) = load(path, ConfigFile::Parsed(parsed));
    assert_eq!((c.thumbnail_width, complaint), (100, None));
    assert_eq!(load(None, ConfigFile::Missing), (Config::default(), None));
}

#[test]
fn the_file_is_below_the_configuration_directory() {
    assert_eq!(
        config_path(&Some(b"/home/u/.config".to_vec())),
        Some(b"/home/u/.config/svitek/config.toml".to_vec())
    );
    assert_eq!(config_path(&None), None);
}
