use rsigild::logger::{colored_level, console_line, file_line, level_name, LogLevel};

#[test]
fn levels_have_their_colours() {
    assert_eq!(colored_level(LogLevel::Error), "\x1b[31;1mERROR\x1b[0m");
    assert_eq!(colored_level(LogLevel::Warn), "\x1b[33;1mWARNING\x1b[0m");
    assert_eq!(colored_level(LogLevel::Info), "\x1b[32;1mINFO\x1b[0m");
    assert_eq!(colored_level(LogLevel::Debug), "\x1b[36;1mDEBUG\x1b[0m");
    assert_eq!(colored_level(LogLevel::Trace), "\x1b[35;1mTRACE\x1b[0m");
}

#[test]
fn level_names_are_plain() {
    assert_eq!(level_name(LogLevel::Warn), "WARN");
    assert_eq!(level_name(LogLevel::Info), "INFO");
}

#[test]
fn lines_are_formatted() {
    assert_eq!(
        console_line("2024-01-02 03:04:05", "rsigild::daemon", LogLevel::Info, "started"),
        "\x1b[38;20m2024-01-02 03:04:05 - rsigild::daemon - \x1b[32;1mINFO\x1b[0m\x1b[0m - started"
    );
    assert_eq!(
        file_line("2024-01-02 03:04:05", "rsigild::daemon", LogLevel::Error, "boom"),
        "2024-01-02 03:04:05 - rsigild::daemon - ERROR - boom"
    );
}
