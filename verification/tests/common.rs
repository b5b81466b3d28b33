use mmo::util::common::Image;
use mmo::util::common::Pixel;

fn image() -> Image {
    Image {
        width: 2,
        height: 1,
        data: vec![
            Pixel { red: 1, green: 2, blue: 3, alpha: 4 },
            Pixel { red: 5, green: 6, blue: 7, alpha: 8 },
        ],
    }
}

#[test]
fn rgb_vec_leaves_the_alpha_out() {
    assert_eq!(image().get_rgb_vec(), vec![1, 2, 3, 5, 6, 7]);
}

#[test]
fn rgba_vec_has_all_four_channels() {
    assert_eq!(image().get_rgba_vec(), vec![1, 2, 3, 4, 5, 6, 7, 8]);
}

#[test]
fn an_image_without_pixels_gives_empty_vectors() {
    let image = Image { width: 0, height: 0, data: Vec::new() };
    assert_eq!(image.get_rgb_vec(), Vec::<u8>::new());
    assert_eq!(image.get_rgba_vec(), Vec::<u8>::new());
}
