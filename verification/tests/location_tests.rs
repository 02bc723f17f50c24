use org_sections::errors::LineError;
use org_sections::location_translate::{LocationTranslator, OffsetBound};

#[test]
fn resolve_line_offset_out_of_bound_err() {
    // Max offset is 45
    let content = "Hi how are you\nI'm fine, thanks, you?\nAll good";
    let location_translator = LocationTranslator::new(content);
    let result = location_translator.resolve_line(46);
    assert_eq!(result, Err(LineError::OffsetOutOfBound(46)));
}

#[test]
fn resolve_line_with_emojis_ok() {
    let content = "🦀 Hi how are you\nI'm fine, thanks, you?\nAll good";
    let location_translator = LocationTranslator::new(content);
    // This is the first line
    let result1 = location_translator.resolve_line(6).unwrap();
    // This is the start of second line
    let result2 = location_translator.resolve_line(20).unwrap();
    // This is the start of the third line
    let result3 = location_translator.resolve_line(43).unwrap();

    assert_eq!(result1, 1);
    assert_eq!(result2, 2);
    assert_eq!(result3, 3);
}

#[test]
fn resolve_range_end_out_of_bound_err() {
    let content = "Hi how are you\nI'm fine, thanks, you?\nAll good";
    let location_translator = LocationTranslator::new(content);
    let result =
        location_translator.resolve_range(OffsetBound::Included(0), OffsetBound::Included(46));
    assert_eq!(result, Err(LineError::OffsetOutOfBound(46)));
}

#[test]
fn resolve_range_start_out_of_bound_err() {
    let content = "Hi how are you\nI'm fine, thanks, you?\nAll good";
    let location_translator = LocationTranslator::new(content);
    let result =
        location_translator.resolve_range(OffsetBound::Included(47), OffsetBound::Included(50));
    assert_eq!(result, Err(LineError::OffsetOutOfBound(47)));
}

#[test]
fn resolver_range_with_emoji_ok() {
    let content = "🦀 Hi how are you\nI'm fine, thanks, you?\nAll good";
    let location_translator = LocationTranslator::new(content);
    let result = location_translator
        .resolve_range(OffsetBound::Included(0), OffsetBound::Included(20))
        .unwrap();
    assert_eq!(result, (1, 2));
}

#[test]
fn resolve_range_same_line_ok() {
    let content = "🦀 Hi how are you\nI'm fine, thanks, you?\nAll good";
    let location_translator = LocationTranslator::new(content);
    let result = location_translator
        .resolve_range(OffsetBound::Included(0), OffsetBound::Included(2))
        .unwrap();
    assert_eq!(result, (1, 1));
}

#[test]
fn resolve_range_empty_valid_range_ok() {
    let content = "🦀 Hi how are you\nI'm fine, thanks, you?\nAll good";
    let location_translator = LocationTranslator::new(content);
    let result = location_translator
        .resolve_range(OffsetBound::Included(4), OffsetBound::Included(4))
        .unwrap();
    assert_eq!(result, (1, 1));
}

#[test]
fn resolve_range_invert_range_err() {
    let content = "🦀 Hi how are you\nI'm fine, thanks, you?\nAll good";
    let location_translator = LocationTranslator::new(content);
    let result =
        location_translator.resolve_range(OffsetBound::Included(20), OffsetBound::Excluded(15));
    assert_eq!(result, Err(LineError::InvalidRange { start: 20, end: 15 }));
}

#[test]
fn resolve_line_counts_line_starts() {
    // Line starts are recorded at offsets 0, 15 and 38.
    let content = "Hi how are you\nI'm fine, thanks, you?\nAll good";
    let location_translator = LocationTranslator::new(content);
    assert_eq!(location_translator.resolve_line(0), Ok(1));
    assert_eq!(location_translator.resolve_line(14), Ok(1));
    assert_eq!(location_translator.resolve_line(15), Ok(2));
    assert_eq!(location_translator.resolve_line(37), Ok(2));
    assert_eq!(location_translator.resolve_line(38), Ok(3));
    assert_eq!(location_translator.resolve_line(45), Ok(3));
}

#[test]
fn resolve_range_equivalent_bound_forms_ok() {
    let content = "🦀 Hi how are you\nI'm fine, thanks, you?\nAll good";
    let location_translator = LocationTranslator::new(content);
    let inclusive =
        location_translator.resolve_range(OffsetBound::Included(0), OffsetBound::Included(20));
    let exclusive =
        location_translator.resolve_range(OffsetBound::Included(0), OffsetBound::Excluded(21));
    assert_eq!(inclusive, exclusive);
    assert_eq!(inclusive, Ok((1, 2)));
}

#[test]
fn resolve_range_unbounded_ok() {
    let content = "Hi how are you\nI'm fine, thanks, you?\nAll good";
    let location_translator = LocationTranslator::new(content);
    let result =
        location_translator.resolve_range(OffsetBound::Unbounded, OffsetBound::Unbounded);
    assert_eq!(result, Ok((1, 3)));
}

#[test]
fn resolve_range_excluded_start_ok() {
    let content = "Hi how are you\nI'm fine, thanks, you?\nAll good";
    let location_translator = LocationTranslator::new(content);
    let result =
        location_translator.resolve_range(OffsetBound::Excluded(14), OffsetBound::Included(15));
    assert_eq!(result, Ok((2, 2)));
}

#[test]
fn resolve_line_empty_content_err() {
    let location_translator = LocationTranslator::new("");
    let result = location_translator.resolve_line(0);
    assert_eq!(result, Err(LineError::OffsetOutOfBound(0)));
}

#[test]
fn resolve_range_empty_content_err() {
    let location_translator = LocationTranslator::new("");
    let result =
        location_translator.resolve_range(OffsetBound::Unbounded, OffsetBound::Unbounded);
    assert_eq!(result, Err(LineError::OffsetOutOfBound(0)));
}
