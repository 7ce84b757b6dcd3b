use image_copy_capture::formats::{group_formats, DmabufFormat, ARGB8888, XRGB8888};

fn format(code: u32, modifier: u64) -> DmabufFormat {
    DmabufFormat { code, modifier }
}

fn fourcc(code: &[u8; 4]) -> u32 {
    u32::from_le_bytes(*code)
}

#[test]
fn fourcc_codes_spell_their_names() {
    assert_eq!(XRGB8888, fourcc(b"XR24"));
    assert_eq!(ARGB8888, fourcc(b"AR24"));
    assert_eq!(XRGB8888, 875713112);
}

#[test]
fn formats_are_grouped_by_code_in_order() {
    let nv12 = fourcc(b"NV12");
    let xb30 = fourcc(b"XB30");
    let formats = vec![format(xb30, 7), format(nv12, 1), format(xb30, 3)];
    assert_eq!(
        group_formats(&formats),
        vec![(xb30, vec![7, 3]), (nv12, vec![1])]
    );
}

#[test]
fn preferred_formats_come_first() {
    let nv12 = fourcc(b"NV12");
    let xb30 = fourcc(b"XB30");
    let formats = vec![
        format(nv12, 1),
        format(ARGB8888, 0),
        format(xb30, 2),
        format(XRGB8888, 5),
        format(ARGB8888, 9),
    ];
    assert_eq!(
        group_formats(&formats),
        vec![
            (XRGB8888, vec![5]),
            (ARGB8888, vec![0, 9]),
            (nv12, vec![1]),
            (xb30, vec![2]),
        ]
    );
}

#[test]
fn argb_leads_when_there_is_no_xrgb() {
    let nv12 = fourcc(b"NV12");
    let formats = vec![format(nv12, 1), format(ARGB8888, 0)];
    assert_eq!(
        group_formats(&formats),
        vec![(ARGB8888, vec![0]), (nv12, vec![1])]
    );
}

#[test]
fn no_formats_give_no_groups() {
    assert_eq!(group_formats(&vec![]), vec![]);
}

#[test]
fn a_format_that_is_listed_twice_keeps_both_entries() {
    let formats = vec![format(ARGB8888, 4), format(ARGB8888, 4)];
    assert_eq!(group_formats(&formats), vec![(ARGB8888, vec![4, 4])]);
}
