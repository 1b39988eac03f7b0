//! Tests of the supporting structures: the parse-error log, element
//! classes, source locations and the color tables.

use css_syntax::colors::get_color_value;
use css_syntax::colors::is_named_color;
use css_syntax::colors::is_system_color;
use css_syntax::element_class::ElementClass;
use css_syntax::error_logger::ErrorLogger;
use css_syntax::error_logger::ParserError;
use css_syntax::error_logger::Position;
use css_syntax::location::Location;

#[test]
fn test_error_logger() {
    let mut logger = ErrorLogger::new();

    logger.add_error(Position::new(1, 1, 0), "test");
    logger.add_error(Position::new(1, 1, 0), "test");
    logger.add_error(Position::new(1, 1, 0), "test");
    logger.add_error(Position::new(1, 1, 0), "test");
    logger.add_error(Position::new(1, 1, 0), "test");

    assert_eq!(logger.get_errors().len(), 1);
}

#[test]
fn test_error_logger2() {
    let mut logger = ErrorLogger::new();

    logger.add_error(Position::new(1, 1, 0), "test");
    logger.add_error(Position::new(1, 2, 0), "test");
    logger.add_error(Position::new(1, 3, 0), "test");
    logger.add_error(Position::new(1, 4, 0), "test");
    logger.add_error(Position::new(1, 5, 0), "test");

    assert_eq!(logger.get_errors().len(), 5);
}

#[test]
fn test_error_logger3() {
    let mut logger = ErrorLogger::new();

    logger.add_error(Position::new(1, 1, 0), "test");
    logger.add_error(Position::new(1, 2, 0), "test");
    logger.add_error(Position::new(1, 3, 0), "test");
    logger.add_error(Position::new(1, 4, 0), "test");
    logger.add_error(Position::new(1, 5, 0), "test");
    logger.add_error(Position::new(1, 5, 0), "test");
    logger.add_error(Position::new(1, 5, 0), "test");
    logger.add_error(Position::new(1, 5, 0), "test");
    logger.add_error(Position::new(1, 5, 0), "test");

    assert_eq!(logger.get_errors().len(), 5);
}

#[test]
fn test_error_logger4() {
    let mut logger = ErrorLogger::new();

    logger.add_error(Position::new(0, 1, 1), "test");
    logger.add_error(Position::new(0, 1, 2), "test");
    logger.add_error(Position::new(0, 1, 3), "test");
    logger.add_error(Position::new(0, 1, 4), "test");
    logger.add_error(Position::new(0, 1, 5), "test");
    logger.add_error(Position::new(0, 1, 5), "test");
    logger.add_error(Position::new(0, 1, 5), "test");
    logger.add_error(Position::new(0, 1, 5), "test");
    logger.add_error(Position::new(0, 1, 5), "test");
    logger.add_error(Position::new(0, 2, 1), "test");
    logger.add_error(Position::new(0, 2, 2), "test");
    logger.add_error(Position::new(0, 2, 3), "test");
    logger.add_error(Position::new(0, 2, 4), "test");
    logger.add_error(Position::new(0, 2, 5), "test");
    logger.add_error(Position::new(0, 2, 5), "test");
    logger.add_error(Position::new(0, 2, 5), "test");
    logger.add_error(Position::new(0, 2, 5), "test");
    logger.add_error(Position::new(0, 2, 5), "test");

    assert_eq!(logger.get_errors().len(), 10);
}

#[test]
fn parser_error_names() {
    assert_eq!(ParserError::EofInTag.as_str(), "eof-in-tag");
    assert_eq!(
        ParserError::AbruptDoctypePublicIdentifier.as_str(),
        "abrupt-doctype-public-identifier"
    );
}

#[test]
fn contains_nonexistant_class() {
    let classes = ElementClass::new();
    assert_eq!(classes.contains("nope"), false);
}

#[test]
fn contains_valid_class() {
    let mut classes = ElementClass::new();
    classes.add("yep");
    assert_eq!(classes.contains("yep"), true);
}

#[test]
fn class_toggling() {
    let mut classes = ElementClass::new();
    classes.add("menu");
    assert!(classes.is_active("menu"));
    classes.toggle("menu");
    assert!(!classes.is_active("menu"));
    classes.toggle("menu");
    assert!(classes.is_active("menu"));
    classes.set_active("menu", false);
    assert!(!classes.is_active("menu"));
    classes.remove("menu");
    assert!(!classes.contains("menu"));
    // Toggling a class that is not there does nothing.
    classes.toggle("nope");
    assert!(!classes.contains("nope"));
}

#[test]
fn location_coordinates() {
    let mut loc = Location::new(1, 1, 0);
    assert_eq!(loc.line(), 1);
    assert_eq!(loc.column(), 1);
    assert_eq!(loc.offset(), 0);
    loc.inc_line();
    loc.inc_column();
    loc.inc_offset();
    assert_eq!(loc.line(), 2);
    assert_eq!(loc.column(), 2);
    assert_eq!(loc.offset(), 1);
    loc.set_column(7);
    assert_eq!(loc.column(), 7);
    let d = Location::default();
    assert_eq!(d.line(), 1);
    assert_eq!(d.column(), 1);
    assert_eq!(d.offset(), 0);
}

#[test]
fn color_lookup() {
    assert_eq!(get_color_value("red").unwrap(), "#ff0000");
    assert_eq!(get_color_value("RED").unwrap(), "#ff0000");
    assert_eq!(get_color_value("rebeccapurple"), None);
    assert!(is_named_color("AliceBlue"));
    assert!(!is_named_color("notacolor"));
    assert!(is_system_color("Canvas"));
    assert!(!is_system_color("red"));
}
