use rayn::film::{progress, ChannelKind, EpochMismatch, Film, FilmError, ImageOutput};
use rayn::geom::{Aabru, Extent2u, Vec2u};
use rayn::tile::Tile;

fn all_channels() -> Vec<ChannelKind> {
    vec![ChannelKind::Color, ChannelKind::Alpha, ChannelKind::Background, ChannelKind::WorldNormal]
}

fn one_tile(epoch: usize, index: usize) -> Tile<()> {
    Tile::new(
        index,
        epoch,
        Vec::new(),
        Aabru { min: Vec2u::new(0, 0), max: Vec2u::new(2, 2) },
    )
}

#[test]
fn film_new_keeps_channels_in_order() {
    let film = Film::new(&all_channels(), Extent2u::new(4, 3)).unwrap();
    assert_eq!(film.channels, all_channels());
    assert_eq!(film.res, Extent2u::new(4, 3));
    assert_eq!(film.progressive_epoch, 0);
    assert_eq!(film.tiles_finished, 0);
}

#[test]
fn film_new_rejects_duplicate_channel() {
    let chans = vec![ChannelKind::Color, ChannelKind::Alpha, ChannelKind::Alpha, ChannelKind::Color];
    let err = Film::new(&chans, Extent2u::new(4, 4)).err().unwrap();
    assert_eq!(err, FilmError::DuplicateChannel(ChannelKind::Alpha));
    assert_eq!(err.message(), "Attempted to create multiple Alpha channels");
}

#[test]
fn film_new_accepts_no_channels() {
    let film = Film::new(&Vec::new(), Extent2u::new(0, 0)).unwrap();
    assert!(film.channels.is_empty());
}

#[test]
fn index_of_finds_channel_positions() {
    let chans = vec![ChannelKind::WorldNormal, ChannelKind::Color];
    let film = Film::new(&chans, Extent2u::new(1, 1)).unwrap();
    assert_eq!(film.index_of(ChannelKind::Color), Some(1));
    assert_eq!(film.index_of(ChannelKind::WorldNormal), Some(0));
    assert_eq!(film.index_of(ChannelKind::Alpha), None);
}

#[test]
fn save_plan_opaque_color_over_background() {
    let film = Film::new(&all_channels(), Extent2u::new(4, 4)).unwrap();
    let plan = film
        .save_plan(&vec![ChannelKind::Alpha, ChannelKind::WorldNormal, ChannelKind::Color], "8_spp", false)
        .unwrap();
    assert_eq!(plan.len(), 3);
    assert_eq!(plan[0].output, ImageOutput::Alpha { channel: 1 });
    assert_eq!(plan[0].file_name, "8_spp_alpha.png");
    assert_eq!(plan[1].output, ImageOutput::WorldNormal { channel: 3 });
    assert_eq!(plan[1].file_name, "8_spp_normal.png");
    assert_eq!(plan[2].output, ImageOutput::ColorOverBackground { color: 0, background: 2 });
    assert_eq!(plan[2].file_name, "8_spp_color.png");
}

#[test]
fn save_plan_transparent_color() {
    let film = Film::new(&all_channels(), Extent2u::new(4, 4)).unwrap();
    let plan = film.save_plan(&vec![ChannelKind::Color, ChannelKind::Background], "f", true).unwrap();
    assert_eq!(plan[0].output, ImageOutput::ColorTransparent { color: 0, alpha: 1 });
    assert_eq!(plan[1].output, ImageOutput::Background { channel: 2 });
    assert_eq!(plan[1].file_name, "f_background.png");
}

#[test]
fn save_plan_color_alone() {
    let film = Film::new(&vec![ChannelKind::Color], Extent2u::new(2, 2)).unwrap();
    let plan = film.save_plan(&vec![ChannelKind::Color], "x", false).unwrap();
    assert_eq!(plan[0].output, ImageOutput::ColorOpaque { color: 0 });
}

#[test]
fn save_plan_transparent_without_alpha_fails() {
    let film = Film::new(&vec![ChannelKind::Color, ChannelKind::Background], Extent2u::new(2, 2)).unwrap();
    let err = film.save_plan(&vec![ChannelKind::Color], "x", true).err().unwrap();
    assert_eq!(err, FilmError::InsufficientColorChannels);
    assert_eq!(err.message(), "Attempted to write Color channel with insufficient channels");
}

#[test]
fn save_plan_missing_channel_fails_on_first() {
    let film = Film::new(&vec![ChannelKind::Color], Extent2u::new(2, 2)).unwrap();
    let err = film
        .save_plan(&vec![ChannelKind::Color, ChannelKind::WorldNormal, ChannelKind::Alpha], "x", false)
        .err()
        .unwrap();
    assert_eq!(err, FilmError::MissingChannel(ChannelKind::WorldNormal));
    assert_eq!(err.message(), "Attempted to write WorldNormal channel but it didn't exist");
}

#[test]
fn output_pixel_index_flips_rows() {
    let film = Film::new(&all_channels(), Extent2u::new(4, 3)).unwrap();
    assert_eq!(film.output_pixel_index(0, 0), 8);
    assert_eq!(film.output_pixel_index(3, 0), 11);
    assert_eq!(film.output_pixel_index(1, 2), 1);
}

#[test]
fn progress_reports_every_twentieth() {
    // 100 tiles: a line every 5 tiles, each giving the percentage.
    assert_eq!(progress(0, 100), Some(0));
    assert_eq!(progress(5, 100), Some(5));
    assert_eq!(progress(7, 100), None);
    assert_eq!(progress(95, 100), Some(95));
    // 3 tiles: every tile reports, rounded to nearest.
    assert_eq!(progress(1, 3), Some(33));
    assert_eq!(progress(2, 3), Some(67));
    // 30 tiles: step of round(1.5) = 2.
    assert_eq!(progress(3, 30), None);
    assert_eq!(progress(4, 30), Some(13));
}

#[test]
fn tile_finished_counts_and_reports() {
    let mut film = Film::new(&all_channels(), Extent2u::new(2, 2)).unwrap();
    assert_eq!(film.tile_finished(&one_tile(0, 0), 2), Ok(Some(0)));
    assert_eq!(film.tiles_finished, 1);
    assert_eq!(film.tile_finished(&one_tile(0, 1), 2), Ok(Some(50)));
    assert_eq!(film.tiles_finished, 2);
}

#[test]
fn tile_finished_rejects_other_epoch() {
    let mut film = Film::new(&all_channels(), Extent2u::new(2, 2)).unwrap();
    let r = film.tile_finished(&one_tile(3, 0), 1);
    assert_eq!(r, Err(EpochMismatch { expected: 0, got: 3 }));
    assert_eq!(film.tiles_finished, 0);
}

#[test]
fn epoch_advances_only_when_pass_is_done() {
    let mut film = Film::new(&all_channels(), Extent2u::new(2, 2)).unwrap();
    assert!(!film.try_advance_epoch(1));
    assert_eq!(film.progressive_epoch, 0);
    film.tile_finished(&one_tile(0, 0), 1).unwrap();
    assert!(film.try_advance_epoch(1));
    assert_eq!(film.progressive_epoch, 1);
    assert_eq!(film.tiles_finished, 0);
    // a tile of the finished pass is now stale
    assert_eq!(film.tile_finished(&one_tile(0, 0), 1), Err(EpochMismatch { expected: 1, got: 0 }));
}
