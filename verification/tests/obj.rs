use pawngfx::error::FileError;
use pawngfx::geometry::Indices;
use pawngfx::obj::{check_extension, parse_indices};

fn parse(corner: &str) -> (Result<(), FileError>, Indices) {
    let mut indices = Indices::default();
    let r = parse_indices(&[corner], &mut indices);
    (r, indices)
}

#[test]
fn full_corner_feeds_all_three_streams() {
    let (r, idx) = parse("3/7/2");
    assert!(r.is_ok());
    assert_eq!(idx.v, vec![2]);
    assert_eq!(idx.uv, vec![6]);
    assert_eq!(idx.n, vec![1]);
}

#[test]
fn position_only_corner() {
    let (r, idx) = parse("12");
    assert!(r.is_ok());
    assert_eq!(idx.v, vec![11]);
    assert!(idx.uv.is_empty());
    assert!(idx.n.is_empty());
}

#[test]
fn corner_without_uv() {
    let (r, idx) = parse("5//9");
    assert!(r.is_ok());
    assert_eq!(idx.v, vec![4]);
    assert!(idx.uv.is_empty());
    assert_eq!(idx.n, vec![8]);
}

#[test]
fn corner_without_normal() {
    for corner in ["5/6", "5/6/"] {
        let (r, idx) = parse(corner);
        assert!(r.is_ok());
        assert_eq!(idx.v, vec![4]);
        assert_eq!(idx.uv, vec![5]);
        assert!(idx.n.is_empty());
    }
}

#[test]
fn fields_after_the_third_are_not_read() {
    let (r, idx) = parse("1/2/3/x");
    assert!(r.is_ok());
    assert_eq!((idx.v, idx.uv, idx.n), (vec![0], vec![1], vec![2]));
}

#[test]
fn only_the_first_part_is_read() {
    let mut indices = Indices::default();
    assert!(parse_indices(&["1/1/1", "2/2/2", "oops"], &mut indices).is_ok());
    assert_eq!(indices.v, vec![0]);
}

#[test]
fn corners_append_to_the_streams() {
    let mut indices = Indices::default();
    for corner in ["1/1/1", "2/2/1", "3/3/1"] {
        parse_indices(&[corner], &mut indices).unwrap();
    }
    assert_eq!(indices.v, vec![0, 1, 2]);
    assert_eq!(indices.uv, vec![0, 1, 2]);
    assert_eq!(indices.n, vec![0, 0, 0]);
}

#[test]
fn malformed_position_is_an_error() {
    for corner in ["", "/1/2", "x", "1x", "-1", "+", "1.5", " 1", "0"] {
        let (r, idx) = parse(corner);
        assert!(matches!(r, Err(FileError::ParseInt)), "{corner}");
        assert!(idx.v.is_empty() && idx.uv.is_empty() && idx.n.is_empty());
    }
}

#[test]
fn malformed_later_field_keeps_what_was_read() {
    let (r, idx) = parse("4/x/2");
    assert!(matches!(r, Err(FileError::ParseInt)));
    assert_eq!(idx.v, vec![3]);
    assert!(idx.uv.is_empty() && idx.n.is_empty());
    let (r, idx) = parse("4/5/y");
    assert!(matches!(r, Err(FileError::ParseInt)));
    assert_eq!((idx.v, idx.uv), (vec![3], vec![4]));
    assert!(idx.n.is_empty());
}

#[test]
fn plus_sign_and_leading_zeros_are_read() {
    let (r, idx) = parse("+7/007");
    assert!(r.is_ok());
    assert_eq!((idx.v, idx.uv), (vec![6], vec![6]));
}

#[test]
fn index_must_fit_the_index_type() {
    let max = usize::MAX.to_string();
    let (r, idx) = parse(&max);
    assert!(r.is_ok());
    assert_eq!(idx.v, vec![usize::MAX - 1]);
    let (r, _) = parse(&format!("{max}0"));
    assert!(matches!(r, Err(FileError::ParseInt)));
    let (r, _) = parse("99999999999999999999999999999999");
    assert!(matches!(r, Err(FileError::ParseInt)));
}

#[test]
fn agrees_with_the_standard_integer_parser() {
    for text in ["1", "+1", "42", "0042", "", "+", "-", "4 2", "٣", "1_000", "18446744073709551616"]
    {
        let expected = text.parse::<usize>().ok().filter(|&n| n > 0).map(|n| n - 1);
        let (r, idx) = parse(text);
        assert_eq!(r.is_ok(), expected.is_some(), "{text:?}");
        assert_eq!(idx.v.first().copied(), expected, "{text:?}");
    }
}

#[test]
fn only_obj_files_are_read() {
    assert!(check_extension(Some("obj")).is_ok());
    assert!(matches!(check_extension(None), Err(FileError::Invalid)));
    for other in ["OBJ", "gltf", "", "ob", "objx", "png"] {
        match check_extension(Some(other)) {
            Err(FileError::WrongFile(message)) => {
                assert_eq!(message, "Wrong extension, expected .obj")
            }
            _ => panic!("{other} was not refused as the wrong kind of file"),
        }
    }
}
