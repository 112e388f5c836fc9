use buncher::args::{ArgError, Args, Operation, Rotate, Size2D};
use buncher::number::ParseIntError;

#[test]
fn size_parsing() -> Result<(), ParseIntError> {
    let size1 = Size2D::from_str("1,5")?;
    assert_eq!(size1.width, 1);
    assert_eq!(size1.height, 5);

    let size2 = Size2D::from_str("(2,6)")?;
    assert_eq!(size2.width, 2);
    assert_eq!(size2.height, 6);

    let size3 = Size2D::from_str("3, 7")?;
    assert_eq!(size3.width, 3);
    assert_eq!(size3.height, 7);

    Ok(())
}

#[test]
fn size_parsing_readme_example() {
    assert_eq!(Size2D::from_str("(64,64)"), Ok(Size2D { width: 64, height: 64 }));
}

#[test]
fn size_parsing_extra_fields_and_brackets() {
    assert_eq!(Size2D::from_str("((1,2,3))"), Ok(Size2D { width: 1, height: 2 }));
    assert_eq!(Size2D::from_str("+4 ,\t+5 "), Ok(Size2D { width: 4, height: 5 }));
}

#[test]
fn size_parsing_errors() {
    assert_eq!(Size2D::from_str(",5"), Err(ParseIntError::Empty));
    assert_eq!(Size2D::from_str("5,"), Err(ParseIntError::Empty));
    assert_eq!(Size2D::from_str("a,5"), Err(ParseIntError::InvalidDigit));
    assert_eq!(Size2D::from_str("5,x"), Err(ParseIntError::InvalidDigit));
    assert_eq!(Size2D::from_str("4294967296,1"), Err(ParseIntError::PosOverflow));
    assert_eq!(Size2D::from_str("4294967295,1"), Ok(Size2D { width: 4294967295, height: 1 }));
    // the width's error is the one reported
    assert_eq!(Size2D::from_str("x,99999999999"), Err(ParseIntError::InvalidDigit));
}

#[test]
fn rotate_parsing() {
    assert_eq!(Rotate::from_str("90"), Ok(Rotate::Rotate90));
    assert_eq!(Rotate::from_str("180"), Ok(Rotate::Rotate180));
    assert_eq!(Rotate::from_str("270"), Ok(Rotate::Rotate270));
    assert_eq!(Rotate::from_str("45"), Err(ArgError::UnsupportedRotation));
    assert_eq!(Rotate::from_str(" 90"), Err(ArgError::UnsupportedRotation));
    assert_eq!(ArgError::UnsupportedRotation.message(), "Supported values: 90 180 270");
}

#[test]
fn operation_parsing() {
    assert_eq!(Operation::from_str("flip"), Ok(Operation::Flip));
    assert_eq!(Operation::from_str("mirror"), Ok(Operation::Mirror));
    assert_eq!(Operation::from_str("invert"), Ok(Operation::Invert));
    assert_eq!(Operation::from_str("grayscale"), Ok(Operation::Grayscale));
    assert_eq!(Operation::from_str("Flip"), Err(ArgError::UnknownOperation));
    assert_eq!(ArgError::UnknownOperation.message(), "Unknown operation");
}

fn bare_args() -> Args {
    Args {
        directory: "input".to_string(),
        output: None,
        clean: false,
        separate_videos: false,
        additional: vec![],
        flip: false,
        mirror: false,
        invert: false,
        grayscale: false,
        png: false,
        blur_bits: None,
        brighten: None,
        hue: None,
        rotate: None,
        thumbnail: None,
        resize: None,
        ignore: None,
        one: false,
    }
}

#[test]
fn normalize_dedups_neighbours_and_adds_flags() {
    let mut a = bare_args();
    a.additional = vec![Operation::Invert, Operation::Invert, Operation::Flip, Operation::Invert];
    a.flip = true;
    a.grayscale = true;
    a.mirror = true;
    a.normalize();
    assert_eq!(
        a.additional,
        vec![
            Operation::Invert,
            Operation::Flip,
            Operation::Invert,
            Operation::Mirror,
            Operation::Grayscale
        ]
    );
    let once = a.additional.clone();
    a.normalize();
    assert_eq!(a.additional, once);
}

#[test]
fn normalize_flag_order() {
    let mut a = bare_args();
    a.flip = true;
    a.mirror = true;
    a.invert = true;
    a.grayscale = true;
    a.normalize();
    assert_eq!(
        a.additional,
        vec![Operation::Flip, Operation::Mirror, Operation::Grayscale, Operation::Invert]
    );
}

#[test]
fn nothing_todo_cases() {
    let mut a = bare_args();
    assert!(a.nothing_todo());
    a.hue = Some(30);
    assert!(a.nothing_todo());
    a.output = Some("out".to_string());
    assert!(!a.nothing_todo());
    let mut b = bare_args();
    b.rotate = Some(Rotate::Rotate90);
    assert!(!b.nothing_todo());
}
