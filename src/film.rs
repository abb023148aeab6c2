use vstd::prelude::*;

use crate::geom::Extent2u;
use crate::tile::Tile;

verus! {

/// One named image layer of the film.
#[derive(Clone, Copy, Debug, PartialEq, Eq, Hash, Structural)]
pub enum ChannelKind {
    Color,
    Alpha,
    Background,
    WorldNormal,
}

/// A configuration error of the film, found before any work starts.
#[derive(Clone, Copy, Debug, PartialEq, Eq, Structural)]
pub enum FilmError {
    /// The same channel was registered twice.
    DuplicateChannel(ChannelKind),
    /// The color output was asked for without the channels it is made from.
    InsufficientColorChannels,
    /// An output was asked for whose channel was never registered.
    MissingChannel(ChannelKind),
}

/// A finished tile belongs to another render pass than the film's current
/// one: a scheduling fault, never a consequence of the input.
#[derive(Clone, Copy, Debug, PartialEq, Eq, Structural)]
pub struct EpochMismatch {
    pub expected: usize,
    pub got: usize,
}

/// How one output image is made from the film's channels (given by their
/// position in the film).
#[derive(Clone, Copy, Debug, PartialEq, Eq, Structural)]
pub enum ImageOutput {
    /// Color premultiplied by alpha, written with an alpha channel.
    ColorTransparent { color: usize, alpha: usize },
    /// Color composited over the background channel, opaque.
    ColorOverBackground { color: usize, background: usize },
    /// Color alone, opaque.
    ColorOpaque { color: usize },
    Background { channel: usize },
    WorldNormal { channel: usize },
    Alpha { channel: usize },
}

/// One image to write: what goes in it, and its file name.
#[derive(Debug, PartialEq, Eq)]
pub struct SaveJob {
    pub output: ImageOutput,
    pub file_name: String,
}

impl ChannelKind {
    /// The channel's name as it appears in messages.
    pub open spec fn spec_name(self) -> Seq<char> {
        match self {
            ChannelKind::Color => "Color"@,
            ChannelKind::Alpha => "Alpha"@,
            ChannelKind::Background => "Background"@,
            ChannelKind::WorldNormal => "WorldNormal"@,
        }
    }

    /// The suffix of the channel's output file name.
    pub open spec fn spec_file_suffix(self) -> Seq<char> {
        match self {
            ChannelKind::Color => "color"@,
            ChannelKind::Alpha => "alpha"@,
            ChannelKind::Background => "background"@,
            ChannelKind::WorldNormal => "normal"@,
        }
    }

    pub fn name(&self) -> (r: &'static str)
        ensures
            r@ == self.spec_name(),
    {
        match self {
            ChannelKind::Color => "Color",
            ChannelKind::Alpha => "Alpha",
            ChannelKind::Background => "Background",
            ChannelKind::WorldNormal => "WorldNormal",
        }
    }

    pub fn file_suffix(&self) -> (r: &'static str)
        ensures
            r@ == self.spec_file_suffix(),
    {
        match self {
            ChannelKind::Color => "color",
            ChannelKind::Alpha => "alpha",
            ChannelKind::Background => "background",
            ChannelKind::WorldNormal => "normal",
        }
    }
}

impl FilmError {
    pub open spec fn spec_message(self) -> Seq<char> {
        match self {
            FilmError::DuplicateChannel(k) => "Attempted to create multiple "@ + k.spec_name()
                + " channels"@,
            FilmError::InsufficientColorChannels =>
                "Attempted to write Color channel with insufficient channels"@,
            FilmError::MissingChannel(k) => "Attempted to write "@ + k.spec_name()
                + " channel but it didn't exist"@,
        }
    }

    /// A sentence that describes the error.
    pub fn message(&self) -> (r: String)
        ensures
            r@ == self.spec_message(),
    {
        match self {
            FilmError::DuplicateChannel(k) => {
                let s = String::from_str("Attempted to create multiple ");
                s.concat(k.name()).concat(" channels")
            },
            FilmError::InsufficientColorChannels => String::from_str(
                "Attempted to write Color channel with insufficient channels",
            ),
            FilmError::MissingChannel(k) => {
                let s = String::from_str("Attempted to write ");
                s.concat(k.name()).concat(" channel but it didn't exist")
            },
        }
    }
}

/// `s[j]` already occurs before position `j`.
pub open spec fn repeats_earlier(s: Seq<ChannelKind>, j: int) -> bool {
    exists|i: int| 0 <= i < j && s[i] == s[j]
}

/// No channel occurs twice.
pub open spec fn all_distinct(s: Seq<ChannelKind>) -> bool {
    forall|i: int, j: int| 0 <= i < j < s.len() ==> s[i] != s[j]
}

/// The first position whose channel occurs earlier too.
pub open spec fn is_first_repeat(s: Seq<ChannelKind>, j: int) -> bool {
    &&& 0 <= j < s.len()
    &&& repeats_earlier(s, j)
    &&& forall|k: int| 0 <= k < j ==> !repeats_earlier(s, k)
}

/// Output file name of a channel: `{base}_{suffix}.png`.
pub open spec fn output_file_name(base: Seq<char>, kind: ChannelKind) -> Seq<char> {
    base + "_"@ + kind.spec_file_suffix() + ".png"@
}

/// Position of `kind` in `chs` (meaningful where `chs` holds it).
pub open spec fn position_of(chs: Seq<ChannelKind>, kind: ChannelKind) -> usize {
    (choose|i: int| 0 <= i < chs.len() && chs[i] == kind) as usize
}

/// How the output for `kind` is made from the channels `chs`, or why it
/// cannot be. A color output with transparency needs color and alpha; an
/// opaque one needs color, and is composited over the background where the
/// film has one.
pub open spec fn planned_output(chs: Seq<ChannelKind>, kind: ChannelKind, transparent: bool) -> Result<
    ImageOutput,
    FilmError,
> {
    let has = |k: ChannelKind| chs.contains(k);
    let at = |k: ChannelKind| position_of(chs, k);
    match kind {
        ChannelKind::Color => if has(ChannelKind::Color) && has(ChannelKind::Alpha) && transparent {
            Ok(ImageOutput::ColorTransparent { color: at(ChannelKind::Color), alpha: at(ChannelKind::Alpha) })
        } else if has(ChannelKind::Color) && has(ChannelKind::Background) && !transparent {
            Ok(
                ImageOutput::ColorOverBackground {
                    color: at(ChannelKind::Color),
                    background: at(ChannelKind::Background),
                },
            )
        } else if has(ChannelKind::Color) && !transparent {
            Ok(ImageOutput::ColorOpaque { color: at(ChannelKind::Color) })
        } else {
            Err(FilmError::InsufficientColorChannels)
        },
        ChannelKind::Background => if has(kind) {
            Ok(ImageOutput::Background { channel: at(kind) })
        } else {
            Err(FilmError::MissingChannel(kind))
        },
        ChannelKind::WorldNormal => if has(kind) {
            Ok(ImageOutput::WorldNormal { channel: at(kind) })
        } else {
            Err(FilmError::MissingChannel(kind))
        },
        ChannelKind::Alpha => if has(kind) {
            Ok(ImageOutput::Alpha { channel: at(kind) })
        } else {
            Err(FilmError::MissingChannel(kind))
        },
    }
}

/// The shared frame: which channels it has, at what resolution, which render
/// pass (epoch) is running and how many of its tiles are done. The pixel data
/// of the channels is held beside it, in the same order as `channels`.
pub struct Film {
    pub channels: Vec<ChannelKind>,
    pub progressive_epoch: usize,
    pub tiles_finished: usize,
    pub res: Extent2u,
}

/// Step between progress reports, in tiles: about one twentieth of the
/// tiles, at least one.
pub open spec fn progress_step(num_tiles: int) -> int {
    if (num_tiles + 10) / 20 >= 1 { (num_tiles + 10) / 20 } else { 1 }
}

/// The progress line due when tile `tile_idx` of `num_tiles` is done: the
/// percentage of tiles before it, rounded to nearest, at every
/// `progress_step`-th tile.
pub open spec fn progress_report(tile_idx: int, num_tiles: int) -> Option<u32> {
    if tile_idx % progress_step(num_tiles) == 0 {
        Some(((200 * tile_idx + num_tiles) / (2 * num_tiles)) as u32)
    } else {
        None
    }
}

/// Computes `progress_report`.
pub fn progress(tile_idx: usize, num_tiles: usize) -> (r: Option<u32>)
    requires
        tile_idx < num_tiles,
    ensures
        r == progress_report(tile_idx as int, num_tiles as int),
{
    // (n + 10) / 20, computed without overflow
    let rounded: usize = num_tiles / 20 + if num_tiles % 20 >= 10 { 1 } else { 0 };
    let step: usize = if rounded >= 1 { rounded } else { 1 };
    assert(step == progress_step(num_tiles as int));
    if tile_idx % step == 0 {
        let pct = (200 * (tile_idx as u128) + num_tiles as u128) / (2 * num_tiles as u128);
        assert(pct <= 100) by (nonlinear_arith)
            requires
                pct == (200 * tile_idx + num_tiles) / (2 * num_tiles),
                tile_idx < num_tiles;
        Some(pct as u32)
    } else {
        None
    }
}

impl Film {
    /// Channels are distinct and a frame-sized buffer fits in memory.
    pub open spec fn wf(&self) -> bool {
        &&& all_distinct(self.channels@)
        &&& self.res.area() <= usize::MAX
    }

    /// Creates a film with the given channels, in that order, at resolution
    /// `res`; fails on the first channel given twice.
    pub fn new(channels: &Vec<ChannelKind>, res: Extent2u) -> (r: Result<Film, FilmError>)
        requires
            res.area() <= usize::MAX,
        ensures
            all_distinct(channels@) <==> r is Ok,
            r matches Ok(f) ==> f.wf() && f.channels@ == channels@ && f.res == res
                && f.progressive_epoch == 0 && f.tiles_finished == 0,
            r matches Err(e) ==> exists|j: int|
                is_first_repeat(channels@, j) && e == FilmError::DuplicateChannel(channels@[j]),
    {
        let mut kept: Vec<ChannelKind> = Vec::new();
        let mut j: usize = 0;
        while j < channels.len()
            invariant
                j <= channels.len(),
                kept@ == channels@.subrange(0, j as int),
                all_distinct(kept@),
                forall|k: int| 0 <= k < j ==> !repeats_earlier(channels@, k),
            decreases channels.len() - j,
        {
            let kind = channels[j];
            let mut i: usize = 0;
            while i < j
                invariant
                    i <= j,
                    j < channels.len(),
                    kind == channels@[j as int],
                    kept@ == channels@.subrange(0, j as int),
                    forall|k: int| 0 <= k < i ==> channels@[k] != kind,
                    forall|k: int| 0 <= k < j ==> !repeats_earlier(channels@, k),
                decreases j - i,
            {
                if kept[i] == kind {
                    assert(kept@[i as int] == channels@[i as int]);
                    assert(repeats_earlier(channels@, j as int));
                    assert(is_first_repeat(channels@, j as int));
                    return Err(FilmError::DuplicateChannel(kind));
                }
                i += 1;
            }
            kept.push(kind);
            j += 1;
        }
        assert(kept@ =~= channels@);
        Ok(Film { channels: kept, progressive_epoch: 0, tiles_finished: 0, res })
    }

    /// Position of `kind` among the film's channels.
    pub fn index_of(&self, kind: ChannelKind) -> (r: Option<usize>)
        requires
            self.wf(),
        ensures
            r matches Some(i) ==> i < self.channels.len() && self.channels@[i as int] == kind,
            r is None <==> !self.channels@.contains(kind),
    {
        let mut i: usize = 0;
        while i < self.channels.len()
            invariant
                i <= self.channels.len(),
                forall|k: int| 0 <= k < i ==> self.channels@[k] != kind,
            decreases self.channels.len() - i,
        {
            if self.channels[i] == kind {
                return Some(i);
            }
            i += 1;
        }
        None
    }

    /// `index_of`, stated as the channel's position.
    fn position(&self, kind: ChannelKind) -> (r: Option<usize>)
        requires
            self.wf(),
        ensures
            r matches Some(i) ==> self.channels@.contains(kind) && i == position_of(self.channels@, kind),
            r is None <==> !self.channels@.contains(kind),
    {
        let r = self.index_of(kind);
        if let Some(i) = r {
            let ghost p = position_of(self.channels@, kind);
            assert(self.channels@[i as int] == kind);
            assert(self.channels@.contains(kind));
            assert(0 <= p < self.channels.len() && self.channels@[p as int] == kind);
            assert(i == p);
        }
        r
    }

    /// How the output for `kind` is made, or why it cannot be.
    pub fn plan_output(&self, kind: ChannelKind, transparent_background: bool) -> (r: Result<
        ImageOutput,
        FilmError,
    >)
        requires
            self.wf(),
        ensures
            r == planned_output(self.channels@, kind, transparent_background),
    {
        match kind {
            ChannelKind::Color => {
                let color = self.position(ChannelKind::Color);
                let alpha = self.position(ChannelKind::Alpha);
                let background = self.position(ChannelKind::Background);
                match (color, alpha, background, transparent_background) {
                    (Some(c), Some(a), _, true) => Ok(ImageOutput::ColorTransparent { color: c, alpha: a }),
                    (Some(c), _, Some(b), false) => Ok(
                        ImageOutput::ColorOverBackground { color: c, background: b },
                    ),
                    (Some(c), _, None, false) => Ok(ImageOutput::ColorOpaque { color: c }),
                    _ => Err(FilmError::InsufficientColorChannels),
                }
            },
            ChannelKind::Background => match self.position(kind) {
                Some(i) => Ok(ImageOutput::Background { channel: i }),
                None => Err(FilmError::MissingChannel(kind)),
            },
            ChannelKind::WorldNormal => match self.position(kind) {
                Some(i) => Ok(ImageOutput::WorldNormal { channel: i }),
                None => Err(FilmError::MissingChannel(kind)),
            },
            ChannelKind::Alpha => match self.position(kind) {
                Some(i) => Ok(ImageOutput::Alpha { channel: i }),
                None => Err(FilmError::MissingChannel(kind)),
            },
        }
    }

    /// Decides every image that saving `write_channels` writes, with its file
    /// name `{base_name}_{suffix}.png`. Fails, writing nothing, on the first
    /// requested output that the film's channels cannot make.
    pub fn save_plan(
        &self,
        write_channels: &Vec<ChannelKind>,
        base_name: &str,
        transparent_background: bool,
    ) -> (r: Result<Vec<SaveJob>, FilmError>)
        requires
            self.wf(),
        ensures
            r is Ok <==> forall|j: int|
                0 <= j < write_channels.len() ==> #[trigger] planned_output(
                    self.channels@,
                    write_channels@[j],
                    transparent_background,
                ) is Ok,
            r matches Ok(jobs) ==> jobs.len() == write_channels.len() && forall|j: int|
                0 <= j < jobs.len() ==> {
                    &&& Ok::<ImageOutput, FilmError>(#[trigger] jobs@[j].output) == planned_output(
                        self.channels@,
                        write_channels@[j],
                        transparent_background,
                    )
                    &&& jobs@[j].file_name@ == output_file_name(base_name@, write_channels@[j])
                },
            r matches Err(e) ==> exists|j: int|
                0 <= j < write_channels.len() && planned_output(
                    self.channels@,
                    write_channels@[j],
                    transparent_background,
                ) == Err::<ImageOutput, FilmError>(e) && forall|k: int|
                    0 <= k < j ==> #[trigger] planned_output(
                        self.channels@,
                        write_channels@[k],
                        transparent_background,
                    ) is Ok,
    {
        let mut jobs: Vec<SaveJob> = Vec::new();
        let mut j: usize = 0;
        while j < write_channels.len()
            invariant
                self.wf(),
                j <= write_channels.len(),
                jobs.len() == j,
                forall|k: int|
                    0 <= k < j ==> #[trigger] planned_output(
                        self.channels@,
                        write_channels@[k],
                        transparent_background,
                    ) is Ok,
                forall|k: int|
                    0 <= k < j ==> {
                        &&& Ok::<ImageOutput, FilmError>(#[trigger] jobs@[k].output) == planned_output(
                            self.channels@,
                            write_channels@[k],
                            transparent_background,
                        )
                        &&& jobs@[k].file_name@ == output_file_name(base_name@, write_channels@[k])
                    },
            decreases write_channels.len() - j,
        {
            let kind = write_channels[j];
            match self.plan_output(kind, transparent_background) {
                Ok(output) => {
                    let file_name = String::from_str(base_name).concat("_").concat(
                        kind.file_suffix(),
                    ).concat(".png");
                    jobs.push(SaveJob { output, file_name });
                },
                Err(e) => {
                    return Err(e);
                },
            }
            j += 1;
        }
        Ok(jobs)
    }

    /// Index in a channel buffer of the pixel that goes to column `x`, row `y`
    /// of an output image: images run top to bottom, the film bottom to top.
    pub fn output_pixel_index(&self, x: usize, y: usize) -> (r: usize)
        requires
            self.wf(),
            x < self.res.w,
            y < self.res.h,
        ensures
            r == x + (self.res.h - 1 - y) * self.res.w,
            r < self.res.area(),
    {
        let w = self.res.w;
        let h = self.res.h;
        proof {
            assert(x + (h - 1 - y) * w < w * h) by (nonlinear_arith)
                requires x < w, y < h;
        }
        x + (h - 1 - y) * w
    }

    /// Records that `tile` is done. A tile of another render pass is a
    /// scheduling fault and is reported, with nothing recorded; otherwise the
    /// count of finished tiles goes up by one and the progress line due for
    /// the tile, if any, is returned.
    pub fn tile_finished<C>(&mut self, tile: &Tile<C>, num_tiles: usize) -> (r: Result<
        Option<u32>,
        EpochMismatch,
    >)
        requires
            tile.index < num_tiles,
            old(self).tiles_finished < usize::MAX,
        ensures
            final(self).channels == old(self).channels,
            final(self).res == old(self).res,
            final(self).progressive_epoch == old(self).progressive_epoch,
            tile.epoch != old(self).progressive_epoch ==> r == Err::<Option<u32>, EpochMismatch>(
                EpochMismatch { expected: old(self).progressive_epoch, got: tile.epoch },
            ) && final(self).tiles_finished == old(self).tiles_finished,
            tile.epoch == old(self).progressive_epoch ==> r == Ok::<Option<u32>, EpochMismatch>(
                progress_report(tile.index as int, num_tiles as int),
            ) && final(self).tiles_finished == old(self).tiles_finished + 1,
    {
        if tile.epoch != self.progressive_epoch {
            return Err(EpochMismatch { expected: self.progressive_epoch, got: tile.epoch });
        }
        self.tiles_finished = self.tiles_finished + 1;
        Ok(progress(tile.index, num_tiles))
    }

    /// Ends the render pass once all `num_tiles` of its tiles are done: the
    /// count is reset and the epoch moves on by one. Before that, nothing
    /// changes.
    pub fn try_advance_epoch(&mut self, num_tiles: usize) -> (r: bool)
        requires
            old(self).progressive_epoch < usize::MAX,
        ensures
            r == (old(self).tiles_finished == num_tiles),
            final(self).channels == old(self).channels,
            final(self).res == old(self).res,
            r ==> final(self).progressive_epoch == old(self).progressive_epoch + 1
                && final(self).tiles_finished == 0,
            !r ==> *final(self) == *old(self),
    {
        if self.tiles_finished == num_tiles {
            self.tiles_finished = 0;
            self.progressive_epoch = self.progressive_epoch + 1;
            true
        } else {
            false
        }
    }

}

} // verus!
