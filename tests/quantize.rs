use dal_image::converter::{default_palette, DalImageConverter, UnknownColorId};
use palette::color_difference::Ciede2000;
use palette::{IntoColor, Lab, Srgb};

fn lab(c: [u8; 3]) -> Lab {
    Srgb::new(
        c[0] as f32 / 255.0,
        c[1] as f32 / 255.0,
        c[2] as f32 / 255.0,
    )
    .into_color()
}

/// Exhaustive CIEDE2000 search over the palette, first minimum wins.
fn brute_force(pal: Vec<[u8; 3]>) -> impl Fn([u8; 3]) -> u64 {
    move |c: [u8; 3]| {
        let q = lab(c);
        let mut best = 0usize;
        let mut best_d = f32::MAX;
        for (i, p) in pal.iter().enumerate() {
            let d = q.difference(lab(*p));
            if d < best_d {
                best_d = d;
                best = i;
            }
        }
        best as u64
    }
}

fn three() -> Vec<[u8; 3]> {
    vec![[0, 0, 0], [255, 255, 255], [255, 0, 0]]
}

#[test]
fn nearest_three_color_scenario() {
    let pal = three();
    let conv = DalImageConverter::new(&pal, (4, 2));
    let search = brute_force(pal.clone());
    assert_eq!(conv.get_nearest([10, 10, 10], &search), Ok([0, 0, 0]));
    assert_eq!(conv.get_nearest([250, 5, 5], &search), Ok([255, 0, 0]));
}

#[test]
fn nearest_is_palette_member() {
    let pal = default_palette();
    let conv = DalImageConverter::default();
    let search = brute_force(pal.clone());
    let mut r: u32 = 7;
    for _ in 0..200 {
        r = r.wrapping_mul(1103515245).wrapping_add(12345);
        let c = [(r >> 8) as u8, (r >> 16) as u8, (r >> 24) as u8];
        let q = conv.get_nearest(c, &search).unwrap();
        assert!(pal.contains(&q));
    }
}

#[test]
fn nearest_idempotent_on_members() {
    let pal = default_palette();
    let conv = DalImageConverter::default();
    let search = brute_force(pal.clone());
    for p in pal.iter() {
        assert_eq!(conv.get_nearest(*p, &search), Ok(*p));
    }
}

#[test]
fn default_configuration() {
    let conv = DalImageConverter::default();
    assert_eq!(conv.dim(), (87, 60));
    assert_eq!(default_palette().len(), 18);
    assert_eq!(conv.color_of(0), Some([0, 0, 0]));
    assert_eq!(conv.color_of(1), Some([0, 0, 0]));
    assert_eq!(conv.color_of(2), Some([255, 255, 255]));
    assert_eq!(conv.color_of(17), Some([113, 55, 18]));
    assert_eq!(conv.color_of(18), None);
}

#[test]
fn duplicates_keep_their_identifiers() {
    let pal = vec![[1, 2, 3], [1, 2, 3], [9, 9, 9]];
    let conv = DalImageConverter::new(&pal, (1, 1));
    assert_eq!(conv.color_of(0), Some([1, 2, 3]));
    assert_eq!(conv.color_of(1), Some([1, 2, 3]));
    assert_eq!(conv.color_of(2), Some([9, 9, 9]));
    assert_eq!(conv.color_of(3), None);
}

#[test]
fn empty_palette_holds_nothing() {
    let conv = DalImageConverter::new(&[], (1, 1));
    assert_eq!(conv.color_of(0), None);
    let search = |_c: [u8; 3]| 0u64;
    assert_eq!(conv.get_nearest([1, 1, 1], &search), Err(UnknownColorId { id: 0 }));
}

#[test]
fn convert_rewrites_whole_pixels_only() {
    let pal = three();
    let conv = DalImageConverter::new(&pal, (2, 1));
    let search = brute_force(pal.clone());
    let mut px = vec![10, 10, 10, 250, 5, 5, 240, 250, 7];
    px.push(42);
    assert_eq!(conv.convert(&mut px, &search), Ok(()));
    assert_eq!(px, vec![0, 0, 0, 255, 0, 0, 255, 255, 255, 42]);
}

#[test]
fn convert_reports_unknown_identifier() {
    let conv = DalImageConverter::new(&three(), (1, 1));
    let search = |_c: [u8; 3]| 99u64;
    let mut px = vec![1, 2, 3];
    assert_eq!(conv.convert(&mut px, &search), Err(UnknownColorId { id: 99 }));
}

#[test]
fn convert_alpha_policy() {
    let pal = three();
    let conv = DalImageConverter::new(&pal, (3, 1));
    let search = brute_force(pal.clone());
    let mut px = vec![250, 5, 5, 255, 250, 5, 5, 254, 10, 10, 10, 0];
    assert_eq!(conv.convert_alpha(&mut px, [1, 2, 3], &search), Ok(()));
    assert_eq!(px, vec![255, 0, 0, 255, 1, 2, 3, 255, 1, 2, 3, 255]);
}

#[test]
fn convert_alpha_skips_search_for_transparent() {
    let conv = DalImageConverter::new(&three(), (1, 1));
    let search = |_c: [u8; 3]| 99u64;
    let mut px = vec![9, 9, 9, 100];
    assert_eq!(conv.convert_alpha(&mut px, [7, 7, 7], &search), Ok(()));
    assert_eq!(px, vec![7, 7, 7, 255]);
    let mut opaque = vec![9, 9, 9, 255];
    assert_eq!(
        conv.convert_alpha(&mut opaque, [7, 7, 7], &search),
        Err(UnknownColorId { id: 99 })
    );
}

#[test]
fn convert_twice_gives_same_bytes() {
    let pal = default_palette();
    let conv = DalImageConverter::default();
    let search = brute_force(pal.clone());
    let src: Vec<u8> = (0..300u32).map(|i| (i * 37 % 256) as u8).collect();
    let mut a = src.clone();
    let mut b = src.clone();
    conv.convert(&mut a, &search).unwrap();
    conv.convert(&mut b, &search).unwrap();
    assert_eq!(a, b);
    assert_ne!(a, src);
}
