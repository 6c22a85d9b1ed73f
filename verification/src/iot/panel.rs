use crate::iot::drivers::light::{
    Fill, Rgb, scale_brightness, scale_brightness_of, vertical_brightness, vertical_brightness_of,
};
use vstd::prelude::*;

verus! {

/// Minimum per-channel color delta that warrants a full-frame repaint of a
/// panel.
pub const PANEL_REPAINT_STEP: u8 = 12;

/// A color in the panel's RGB565 format: the top five bits of red, six of
/// green and five of blue, red highest.
pub open spec fn rgb565_of(color: Rgb) -> u16 {
    ((color.0 / 8) * 2048 + (color.1 / 4) * 32 + color.2 / 8) as u16
}

/// Pack an RGB color into RGB565.
pub fn rgb565(color: Rgb) -> (r: u16)
    ensures
        r == rgb565_of(color),
{
    let r = color.0 as u16;
    let g = color.1 as u16;
    let b = color.2 as u16;
    let packed = ((r & 0xF8) << 8) | ((g & 0xFC) << 3) | (b >> 3);
    assert(packed == ((r / 8) * 2048 + (g / 4) * 32 + b / 8) as u16) by (bit_vector)
        requires
            r < 256,
            g < 256,
            b < 256,
            packed == ((r & 0xF8) << 8) | ((g & 0xFC) << 3) | (b >> 3),
    ;
    packed
}

/// The high byte of a pixel, sent first.
pub open spec fn pixel_hi(color: Rgb) -> u8 {
    (rgb565_of(color) / 256) as u8
}

/// The low byte of a pixel, sent second.
pub open spec fn pixel_lo(color: Rgb) -> u8 {
    (rgb565_of(color) % 256) as u8
}

/// The color of a frame row: the color itself, or for a gradient the color
/// at the row's brightness, full on top and black on the last row.
pub open spec fn row_color_of(fill: Fill, color: Rgb, row: u16, height: u16) -> Rgb {
    match fill {
        Fill::Uniform => color,
        Fill::VerticalGradient => scale_brightness_of(color, vertical_brightness_of(row, height) as u8),
    }
}

/// `width` pixels of one color, big-endian.
pub open spec fn pixel_run(color: Rgb, width: nat) -> Seq<u8>
    decreases width,
{
    if width == 0 {
        Seq::empty()
    } else {
        pixel_run(color, (width - 1) as nat) + seq![pixel_hi(color), pixel_lo(color)]
    }
}

/// The first `rows` rows of a `width` by `height` frame painted in `fill`.
pub open spec fn frame_rows(fill: Fill, color: Rgb, width: u16, height: u16, rows: nat) -> Seq<u8>
    decreases rows,
{
    if rows == 0 {
        Seq::empty()
    } else {
        frame_rows(fill, color, width, height, (rows - 1) as nat) + pixel_run(
            row_color_of(fill, color, (rows - 1) as u16, height),
            width as nat,
        )
    }
}

/// A whole `width` by `height` frame painted in `fill`, row by row from the top.
pub open spec fn frame_of(fill: Fill, color: Rgb, width: u16, height: u16) -> Seq<u8> {
    frame_rows(fill, color, width, height, height as nat)
}

proof fn lemma_pixel_run(color: Rgb, width: nat, col: int)
    ensures
        pixel_run(color, width).len() == 2 * width,
        0 <= col < width ==> pixel_run(color, width)[2 * col] == pixel_hi(color),
        0 <= col < width ==> pixel_run(color, width)[2 * col + 1] == pixel_lo(color),
    decreases width,
{
    if width > 0 {
        lemma_pixel_run(color, (width - 1) as nat, col);
    }
}

/// A frame of `width` by `height` holds two bytes per pixel, and the pixel
/// at `row`, `col` carries its row's color, high byte first.
pub proof fn lemma_frame_pixel(fill: Fill, color: Rgb, width: u16, height: u16, row: int, col: int)
    requires
        0 <= row < height,
        0 <= col < width,
    ensures
        frame_of(fill, color, width, height).len() == 2 * width * height,
        frame_of(fill, color, width, height)[2 * (row * width + col)] == pixel_hi(
            row_color_of(fill, color, row as u16, height),
        ),
        frame_of(fill, color, width, height)[2 * (row * width + col) + 1] == pixel_lo(
            row_color_of(fill, color, row as u16, height),
        ),
{
    lemma_frame_rows(fill, color, width, height, height as nat, row, col);
}

proof fn lemma_frame_rows(
    fill: Fill,
    color: Rgb,
    width: u16,
    height: u16,
    rows: nat,
    row: int,
    col: int,
)
    requires
        rows <= height,
    ensures
        frame_rows(fill, color, width, height, rows).len() == 2 * width * rows,
        0 <= row < rows && 0 <= col < width ==> frame_rows(fill, color, width, height, rows)[2 * (
        row * width + col)] == pixel_hi(row_color_of(fill, color, row as u16, height)),
        0 <= row < rows && 0 <= col < width ==> frame_rows(fill, color, width, height, rows)[2 * (
        row * width + col) + 1] == pixel_lo(row_color_of(fill, color, row as u16, height)),
    decreases rows,
{
    if rows > 0 {
        let last = (rows - 1) as nat;
        lemma_frame_rows(fill, color, width, height, last, row, col);
        let c = row_color_of(fill, color, last as u16, height);
        lemma_pixel_run(c, width as nat, col);
        assert(frame_rows(fill, color, width, height, rows) == frame_rows(
            fill,
            color,
            width,
            height,
            last,
        ) + pixel_run(c, width as nat));
        assert(2 * width * rows == 2 * width * last + 2 * width) by (nonlinear_arith)
            requires
                rows == last + 1,
        ;
        if 0 <= row < rows && 0 <= col < width {
            if row < last {
                assert(2 * (row * width + col) + 1 < 2 * width * last) by (nonlinear_arith)
                    requires
                        row < last,
                        col < width,
                        0 <= row,
                        0 <= col,
                ;
            } else {
                assert(2 * (row * width + col) == 2 * width * last + 2 * col) by (nonlinear_arith)
                    requires
                        row == last,
                ;
            }
        }
    } else {
        assert(2 * width * rows == 0) by (nonlinear_arith)
            requires
                rows == 0,
        ;
    }
}

fn row_color(fill: Fill, color: Rgb, row: u16, height: u16) -> (r: Rgb)
    ensures
        r == row_color_of(fill, color, row, height),
{
    match fill {
        Fill::Uniform => color,
        Fill::VerticalGradient => scale_brightness(color, vertical_brightness(row, height)),
    }
}

/// Redraw `frame` as a `width` by `height` panel frame painted in `fill`.
pub fn fill_frame(frame: &mut Vec<u8>, width: u16, height: u16, fill: Fill, color: Rgb)
    requires
        width > 0,
    ensures
        final(frame)@ == frame_of(fill, color, width, height),
{
    frame.clear();
    let mut row: u16 = 0;
    while row < height
        invariant
            row <= height,
            frame@ == frame_rows(fill, color, width, height, row as nat),
        decreases height - row,
    {
        let c = row_color(fill, color, row, height);
        let packed = rgb565(c);
        let hi = (packed >> 8) as u8;
        let lo = packed as u8;
        assert(hi == (packed / 256) as u8 && lo == (packed % 256) as u8) by (bit_vector)
            requires
                hi == (packed >> 8) as u8,
                lo == packed as u8,
        ;
        let ghost start = frame@;
        let mut col: u16 = 0;
        while col < width
            invariant
                col <= width,
                hi == pixel_hi(c),
                lo == pixel_lo(c),
                frame@ == start + pixel_run(c, col as nat),
            decreases width - col,
        {
            frame.push(hi);
            frame.push(lo);
            assert(pixel_run(c, (col + 1) as nat) == pixel_run(c, col as nat) + seq![hi, lo]);
            assert(frame@ =~= start + pixel_run(c, (col + 1) as nat));
            col = col + 1;
        }
        assert(frame_rows(fill, color, width, height, (row + 1) as nat) == frame_rows(
            fill,
            color,
            width,
            height,
            row as nat,
        ) + pixel_run(row_color_of(fill, color, row, height), width as nat));
        row = row + 1;
    }
}

/// The frame a panel shows and what it was painted with.
pub struct PanelFrame {
    frame: Vec<u8>,
    screen_color: Option<(Fill, Rgb)>,
}

impl PanelFrame {
    /// The frame bytes, as last painted.
    pub closed spec fn bytes_of(&self) -> Seq<u8> {
        self.frame@
    }

    /// What the panel was last painted with, if anything.
    pub closed spec fn screen_of(&self) -> Option<(Fill, Rgb)> {
        self.screen_color
    }

    pub fn new() -> (r: Self)
        ensures
            r.bytes_of() == Seq::<u8>::empty(),
            r.screen_of() is None,
    {
        PanelFrame { frame: Vec::new(), screen_color: None }
    }

    /// Paint a `width` by `height` frame in `fill` and `color`, unless the
    /// panel already shows exactly that. Returns whether the frame changed
    /// and must be written to the panel.
    pub fn paint(&mut self, fill: Fill, color: Rgb, width: u16, height: u16) -> (r: bool)
        requires
            width > 0,
        ensures
            r == (old(self).screen_of() != Some((fill, color))),
            r ==> final(self).screen_of() == Some((fill, color)) && final(self).bytes_of()
                == frame_of(fill, color, width, height),
            !r ==> final(self).screen_of() == old(self).screen_of() && final(self).bytes_of() == old(
                self,
            ).bytes_of(),
    {
        let same = match self.screen_color {
            Some((f, c)) => f == fill && c == color,
            None => false,
        };
        if same {
            return false;
        }
        self.screen_color = Some((fill, color));
        fill_frame(&mut self.frame, width, height, fill, color);
        true
    }

    /// The frame bytes, as last painted.
    pub fn bytes(&self) -> (r: &[u8])
        ensures
            r@ == self.bytes_of(),
    {
        self.frame.as_slice()
    }
}

/// PWM duty, in percent, that drives an active-low backlight to `level_pct`
/// percent of full brightness (levels above 100 count as 100).
pub open spec fn duty_for_level_of(level_pct: u8) -> u8 {
    if level_pct >= 100 {
        0
    } else {
        (100 - level_pct) as u8
    }
}

/// PWM duty, in percent, for a backlight level.
pub fn duty_for_level(level_pct: u8) -> (r: u8)
    ensures
        r == duty_for_level_of(level_pct),
{
    let level = if level_pct < 100 {
        level_pct
    } else {
        100
    };
    100 - level
}

/// Sleep out.
pub const CMD_SLPOUT: u8 = 0x11;
/// Normal display mode on.
pub const CMD_NORON: u8 = 0x13;
/// Memory data access control.
pub const CMD_MADCTL: u8 = 0x36;
/// Interface pixel format.
pub const CMD_COLMOD: u8 = 0x3A;
/// RAM control.
pub const CMD_RAMCTRL: u8 = 0xB0;
/// Column address set.
pub const CMD_CASET: u8 = 0x2A;
/// Row address set.
pub const CMD_RASET: u8 = 0x2B;
/// Memory write.
pub const CMD_RAMWR: u8 = 0x2C;
/// How long the panel must settle after sleep out before the next command.
pub const SLPOUT_SETTLE_MS: u32 = 150;

/// A command byte and its parameter bytes.
pub struct PanelCommand {
    pub command: u8,
    pub args: Vec<u8>,
}

/// A panel command, as values.
pub struct PanelCommandView {
    pub command: u8,
    pub args: Seq<u8>,
}

impl View for PanelCommand {
    type V = PanelCommandView;

    open spec fn view(&self) -> PanelCommandView {
        PanelCommandView { command: self.command, args: self.args@ }
    }
}

/// The views of a sequence of commands.
pub open spec fn command_views(s: Seq<PanelCommand>) -> Seq<PanelCommandView> {
    s.map_values(|c: PanelCommand| c@)
}

/// What the panel receives for one command of a generic ST7789 bring-up
/// stream: sleep out passes; the access control setting becomes the exact
/// access control, pixel format and RAM control this panel needs; the
/// stream's own pixel format and normal-mode commands are held back; any
/// other command passes unchanged.
pub open spec fn init_translation(command: u8, args: Seq<u8>) -> Seq<PanelCommandView> {
    if command == CMD_MADCTL {
        seq![
            PanelCommandView { command: CMD_MADCTL, args: seq![0x00u8] },
            PanelCommandView { command: CMD_COLMOD, args: seq![0x55u8] },
            PanelCommandView { command: CMD_RAMCTRL, args: seq![0x00u8, 0xF0u8] },
        ]
    } else if command == CMD_COLMOD || command == CMD_NORON {
        Seq::empty()
    } else {
        seq![PanelCommandView { command, args }]
    }
}

/// The wait after a bring-up command: only sleep out needs one.
pub open spec fn init_settle_ms(command: u8) -> u32 {
    if command == CMD_SLPOUT {
        SLPOUT_SETTLE_MS
    } else {
        0
    }
}

fn panel_command(command: u8, args: Vec<u8>) -> (r: PanelCommand)
    ensures
        r@ == (PanelCommandView { command, args: args@ }),
{
    PanelCommand { command, args }
}

/// Translate one command of a generic bring-up stream into what this panel
/// receives, with the milliseconds to wait afterwards.
pub fn translate_init_command(cmd: u8, args: &[u8]) -> (r: (Vec<PanelCommand>, u32))
    ensures
        command_views(r.0@) == init_translation(cmd, args@),
        r.1 == init_settle_ms(cmd),
{
    let mut out: Vec<PanelCommand> = Vec::new();
    if cmd == CMD_MADCTL {
        out.push(panel_command(CMD_MADCTL, vec![0x00]));
        out.push(panel_command(CMD_COLMOD, vec![0x55]));
        out.push(panel_command(CMD_RAMCTRL, vec![0x00, 0xF0]));
        proof {
            assert(command_views(out@)[0].args =~= seq![0x00u8]);
            assert(command_views(out@)[1].args =~= seq![0x55u8]);
            assert(command_views(out@)[2].args =~= seq![0x00u8, 0xF0u8]);
        }
    } else if cmd == CMD_COLMOD || cmd == CMD_NORON {
    } else {
        out.push(panel_command(cmd, vstd::slice::slice_to_vec(args)));
    }
    assert(command_views(out@) =~= init_translation(cmd, args@));
    let settle = if cmd == CMD_SLPOUT {
        SLPOUT_SETTLE_MS
    } else {
        0
    };
    (out, settle)
}

/// Big-endian start and end (`extent - 1`) of a full-range address window.
pub open spec fn window_args(extent: u16) -> Seq<u8> {
    seq![0u8, 0u8, ((extent - 1) / 256) as u8, ((extent - 1) % 256) as u8]
}

/// The commands that open a full-screen write on a `width` by `height`
/// panel: the column range, the row range, then memory write, after which
/// the frame follows as data.
pub open spec fn full_window_of(width: u16, height: u16) -> Seq<PanelCommandView> {
    seq![
        PanelCommandView { command: CMD_CASET, args: window_args(width) },
        PanelCommandView { command: CMD_RASET, args: window_args(height) },
        PanelCommandView { command: CMD_RAMWR, args: Seq::empty() },
    ]
}

fn window(extent: u16) -> (r: Vec<u8>)
    requires
        extent > 0,
    ensures
        r@ == window_args(extent),
{
    let end = extent - 1;
    let hi = (end >> 8) as u8;
    let lo = end as u8;
    assert(hi == (end / 256) as u8 && lo == (end % 256) as u8) by (bit_vector)
        requires
            hi == (end >> 8) as u8,
            lo == end as u8,
    ;
    let r = vec![0x00, 0x00, hi, lo];
    assert(r@ =~= window_args(extent));
    r
}

/// The commands that open a full-screen write.
pub fn full_window(width: u16, height: u16) -> (r: Vec<PanelCommand>)
    requires
        width > 0,
        height > 0,
    ensures
        command_views(r@) == full_window_of(width, height),
{
    let mut out: Vec<PanelCommand> = Vec::new();
    out.push(panel_command(CMD_CASET, window(width)));
    out.push(panel_command(CMD_RASET, window(height)));
    out.push(panel_command(CMD_RAMWR, Vec::new()));
    assert(command_views(out@) =~= full_window_of(width, height));
    out
}

/// Gathers words into a scratch buffer of `capacity` bytes for bulk
/// writes; when a word would not fit, the gathered bytes are handed out
/// first.
pub struct WordBatcher {
    buffer: Vec<u8>,
    capacity: usize,
}

impl WordBatcher {
    pub closed spec fn wf(&self) -> bool {
        self.buffer@.len() <= self.capacity
    }

    /// The bytes gathered and not yet handed out.
    pub closed spec fn pending_of(&self) -> Seq<u8> {
        self.buffer@
    }

    pub closed spec fn capacity_of(&self) -> usize {
        self.capacity
    }

    pub fn new(capacity: usize) -> (r: Self)
        ensures
            r.wf(),
            r.pending_of() == Seq::<u8>::empty(),
            r.capacity_of() == capacity,
    {
        WordBatcher { buffer: Vec::new(), capacity }
    }

    /// Add a word; returns the gathered bytes to write first when the word
    /// does not fit behind them.
    pub fn push_word(&mut self, word: &[u8]) -> (r: Option<Vec<u8>>)
        requires
            old(self).wf(),
            word@.len() <= old(self).capacity_of(),
        ensures
            final(self).wf(),
            final(self).capacity_of() == old(self).capacity_of(),
            match r {
                Some(out) => old(self).pending_of().len() + word@.len() > old(self).capacity_of()
                    && out@ == old(self).pending_of() && final(self).pending_of() == word@,
                None => old(self).pending_of().len() + word@.len() <= old(self).capacity_of()
                    && final(self).pending_of() == old(self).pending_of() + word@,
            },
    {
        let mut flushed = None;
        if word.len() > self.capacity - self.buffer.len() {
            let mut out = Vec::new();
            out.append(&mut self.buffer);
            flushed = Some(out);
        }
        let ghost before = self.buffer@;
        let mut i: usize = 0;
        while i < word.len()
            invariant
                0 <= i <= word@.len(),
                self.buffer@ == before + word@.take(i as int),
                self.capacity == old(self).capacity,
                before.len() + word@.len() <= self.capacity,
            decreases word@.len() - i,
        {
            self.buffer.push(word[i]);
            assert(word@.take(i + 1) =~= word@.take(i as int).push(word@[i as int]));
            i = i + 1;
        }
        assert(word@.take(word@.len() as int) =~= word@);
        flushed
    }

    /// Hand out what is left, if anything.
    pub fn finish(&mut self) -> (r: Option<Vec<u8>>)
        requires
            old(self).wf(),
        ensures
            final(self).wf(),
            final(self).capacity_of() == old(self).capacity_of(),
            final(self).pending_of() == Seq::<u8>::empty(),
            match r {
                Some(out) => out@ == old(self).pending_of() && out@.len() > 0,
                None => old(self).pending_of().len() == 0,
            },
    {
        if self.buffer.len() > 0 {
            let mut out = Vec::new();
            out.append(&mut self.buffer);
            Some(out)
        } else {
            None
        }
    }
}

/// The views of a sequence of byte chunks.
pub open spec fn chunk_views(s: Seq<Vec<u8>>) -> Seq<Seq<u8>> {
    s.map_values(|c: Vec<u8>| c@)
}

/// Every chunk holds at least one and at most `capacity` bytes.
pub open spec fn chunks_fit(s: Seq<Seq<u8>>, capacity: usize) -> bool {
    forall|i: int| 0 <= i < s.len() ==> 0 < #[trigger] s[i].len() <= capacity
}

proof fn lemma_chunk_views_push(s: Seq<Vec<u8>>, x: Vec<u8>)
    ensures
        chunk_views(s.push(x)) == chunk_views(s).push(x@),
{
    assert(chunk_views(s.push(x)) =~= chunk_views(s).push(x@));
}

/// The writes that carry `words` through a scratch buffer of `capacity`
/// bytes: together they hold exactly the words' bytes in order, and none is
/// empty or larger than the buffer.
pub fn batch_words(words: &Vec<Vec<u8>>, capacity: usize) -> (r: Vec<Vec<u8>>)
    requires
        forall|i: int| 0 <= i < words@.len() ==> #[trigger] words@[i]@.len() <= capacity,
    ensures
        chunk_views(r@).flatten() == chunk_views(words@).flatten(),
        chunks_fit(chunk_views(r@), capacity),
{
    let mut batcher = WordBatcher::new(capacity);
    let mut writes: Vec<Vec<u8>> = Vec::new();
    let mut i: usize = 0;
    while i < words.len()
        invariant
            0 <= i <= words@.len(),
            batcher.wf(),
            batcher.capacity_of() == capacity,
            chunk_views(writes@).flatten() + batcher.pending_of() == chunk_views(
                words@.take(i as int),
            ).flatten(),
            chunks_fit(chunk_views(writes@), capacity),
            forall|k: int| 0 <= k < words@.len() ==> #[trigger] words@[k]@.len() <= capacity,
        decreases words@.len() - i,
    {
        let ghost pending = batcher.pending_of();
        let ghost done = chunk_views(writes@);
        match batcher.push_word(words[i].as_slice()) {
            Some(out) => {
                proof {
                    lemma_chunk_views_push(writes@, out);
                    done.lemma_flatten_push(out@);
                }
                writes.push(out);
            },
            None => {},
        }
        proof {
            chunk_views(words@.take(i as int)).lemma_flatten_push(words@[i as int]@);
            assert(chunk_views(words@.take(i + 1)) =~= chunk_views(words@.take(i as int)).push(
                words@[i as int]@,
            ));
            assert(chunk_views(writes@).flatten() + batcher.pending_of() =~= chunk_views(
                words@.take(i + 1),
            ).flatten());
        }
        i = i + 1;
    }
    let ghost done = chunk_views(writes@);
    match batcher.finish() {
        Some(out) => {
            proof {
                lemma_chunk_views_push(writes@, out);
                done.lemma_flatten_push(out@);
            }
            writes.push(out);
        },
        None => {
            proof {
                assert(done.flatten() + Seq::<u8>::empty() =~= done.flatten());
            }
        },
    }
    proof {
        assert(words@.take(words@.len() as int) =~= words@);
    }
    writes
}

/// `word` repeated `count` times.
pub open spec fn repeated(word: Seq<u8>, count: nat) -> Seq<u8>
    decreases count,
{
    if count == 0 {
        Seq::empty()
    } else {
        repeated(word, (count - 1) as nat) + word
    }
}

/// The writes that carry one pixel `count` times through a scratch buffer
/// of `capacity` bytes: together they hold exactly the repeated pixel, and
/// none is empty or larger than the buffer.
pub fn batch_repeated(pixel: &[u8], count: u32, capacity: usize) -> (r: Vec<Vec<u8>>)
    requires
        pixel@.len() <= capacity,
    ensures
        chunk_views(r@).flatten() == repeated(pixel@, count as nat),
        chunks_fit(chunk_views(r@), capacity),
{
    let mut batcher = WordBatcher::new(capacity);
    let mut writes: Vec<Vec<u8>> = Vec::new();
    let mut n: u32 = 0;
    while n < count
        invariant
            n <= count,
            batcher.wf(),
            batcher.capacity_of() == capacity,
            pixel@.len() <= capacity,
            chunk_views(writes@).flatten() + batcher.pending_of() == repeated(pixel@, n as nat),
            chunks_fit(chunk_views(writes@), capacity),
        decreases count - n,
    {
        let ghost done = chunk_views(writes@);
        match batcher.push_word(pixel) {
            Some(out) => {
                proof {
                    lemma_chunk_views_push(writes@, out);
                    done.lemma_flatten_push(out@);
                }
                writes.push(out);
            },
            None => {},
        }
        proof {
            assert(chunk_views(writes@).flatten() + batcher.pending_of() =~= repeated(
                pixel@,
                (n + 1) as nat,
            ));
        }
        n = n + 1;
    }
    let ghost done = chunk_views(writes@);
    match batcher.finish() {
        Some(out) => {
            proof {
                lemma_chunk_views_push(writes@, out);
                done.lemma_flatten_push(out@);
            }
            writes.push(out);
        },
        None => {
            proof {
                assert(done.flatten() + Seq::<u8>::empty() =~= done.flatten());
            }
        },
    }
    writes
}

} // verus!
