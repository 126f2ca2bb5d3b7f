use vstd::prelude::*;

verus! {

/// Largest width of one thumbnail grid image.
pub const MAX_GRID_WIDTH: usize = 1000;

/// Largest height of one thumbnail grid image.
pub const MAX_GRID_HEIGHT: usize = 1000;

/// Smallest accepted timeline width, timeline height or thumbnail height.
pub const MIN_SIZE: usize = 16;

/// Largest accepted timeline width, timeline height or thumbnail height.
pub const MAX_SIZE: usize = 10000;

/// Timeline width when neither width nor height is given.
pub const DEFAULT_WIDTH: usize = 1000;

/// Thumbnail height when none is given.
pub const DEFAULT_THUMBNAIL_HEIGHT: usize = 90;

/// Why a set of arguments or a video does not give a usable configuration.
#[derive(Debug, Clone, Copy, PartialEq, Eq, Structural)]
pub enum ConfigError {
    WidthNotInteger,
    HeightNotInteger,
    WidthTooSmall,
    HeightTooSmall,
    WidthTooLarge,
    HeightTooLarge,
    ThumbnailHeightNotInteger,
    ThumbnailHeightTooSmall,
    ThumbnailHeightTooLarge,
    TimelineNotJpg,
    ThumbnailsNotVtt,
    /// The video reported a zero width or height.
    UnknownFrameSize,
    /// The derived thumbnail width is zero.
    ThumbnailTooNarrow,
    /// The derived thumbnail width exceeds the grid width.
    ThumbnailTooWide,
    /// The thumbnail height exceeds the grid height.
    ThumbnailTooTall,
}

/// The options of one run as the user wrote them.
pub struct Arguments {
    pub input_filename: String,
    pub width: Option<String>,
    pub height: Option<String>,
    pub thumbnail_height: Option<String>,
    /// The `--timeline` file, if given.
    pub timeline: Option<String>,
    /// The `--thumbnails` manifest file, if given.
    pub thumbnails: Option<String>,
}

/// A configuration whose thumbnail width is not known yet: it depends on the
/// video's aspect ratio.
pub struct PartialConfig {
    pub width: usize,
    pub height: usize,
    pub thumbnail_height: usize,
    pub max_grid_width: usize,
    pub max_grid_height: usize,
    pub input_filename: String,
    pub timeline_filename: Option<String>,
    pub vtt_filename: Option<String>,
}

/// Everything one run needs to lay out the timeline and the thumbnail grids.
///
/// `width` is the number of timeline columns, which is also the number of
/// thumbnails.
pub struct Config {
    /// Width of the timeline in pixels: the number of time buckets.
    pub width: usize,
    /// Height of the timeline in pixels.
    pub height: usize,
    /// Width of a single thumbnail.
    pub thumbnail_width: usize,
    /// Height of a single thumbnail.
    pub thumbnail_height: usize,
    /// Largest width of one thumbnail grid image.
    pub max_grid_width: usize,
    /// Largest height of one thumbnail grid image.
    pub max_grid_height: usize,
    /// Name of the input video file.
    pub input_filename: String,
    /// Where the timeline image goes, if one is wanted.
    pub timeline_filename: Option<String>,
    /// Where the manifest goes, if thumbnails are wanted.
    pub vtt_filename: Option<String>,
}

impl Config {
    /// The layout is usable: every size is positive, a thumbnail fits into a
    /// grid, and the timeline and the largest grid fit in memory as BGRx.
    pub open spec fn wf(&self) -> bool {
        &&& 1 <= self.width
        &&& 1 <= self.height
        &&& 1 <= self.thumbnail_width <= self.max_grid_width
        &&& 1 <= self.thumbnail_height <= self.max_grid_height
        &&& self.width * self.height * 4 <= usize::MAX
        &&& self.max_grid_width * self.max_grid_height * 4 <= usize::MAX
    }
}

impl PartialConfig {
    pub open spec fn wf(&self) -> bool {
        &&& 1 <= self.width
        &&& 1 <= self.height
        &&& 1 <= self.thumbnail_height
        &&& self.width * self.height * 4 <= usize::MAX
        &&& self.max_grid_width * self.max_grid_height * 4 <= usize::MAX
    }
}

pub open spec fn is_digit(c: char) -> bool {
    '0' <= c <= '9'
}

/// Value of a string of decimal digits, most significant first.
pub open spec fn digits_value(s: Seq<char>) -> nat
    decreases s.len(),
{
    if s.len() == 0 {
        0
    } else {
        digits_value(s.drop_last()) * 10 + ((s.last() as int) - ('0' as int)) as nat
    }
}

/// The digits of an unsigned decimal: the text after an optional `+`.
pub open spec fn unsigned_digits(s: Seq<char>) -> Seq<char> {
    if s.len() > 0 && s[0] == '+' {
        s.drop_first()
    } else {
        s
    }
}

/// The `usize` a text denotes: an optional `+` and at least one decimal
/// digit, with a value that fits.
pub open spec fn usize_from_text(s: Seq<char>) -> Option<usize> {
    let d = unsigned_digits(s);
    if d.len() > 0 && (forall|i: int| 0 <= i < d.len() ==> is_digit(#[trigger] d[i]))
        && digits_value(d) <= usize::MAX {
        Some(digits_value(d) as usize)
    } else {
        None
    }
}

/// Relies on `str::parse::<usize>`: accepts exactly an optional `+` followed
/// by ASCII digits whose value fits in `usize`.
#[verifier::external_body]
fn parse_usize(s: &str) -> (r: Option<usize>)
    ensures
        r == usize_from_text(s@),
{
    s.parse::<usize>().ok()
}

/// What `std::path::Path::extension` gives for a path: the text after the
/// final dot of its last component, if there is one.
pub uninterp spec fn path_extension(p: Seq<char>) -> Option<Seq<char>>;

/// Relies on `Path::extension`, the extension of the path's file name; the
/// path is UTF-8, so the lossy conversion keeps it intact.
#[verifier::external_body]
fn extension(path: &str) -> (r: Option<String>)
    ensures
        text_of(r) == path_extension(path@),
{
    match std::path::Path::new(path).extension() {
        Some(e) => Some(e.to_string_lossy().into_owned()),
        None => None,
    }
}

pub open spec fn text_of(o: Option<String>) -> Option<Seq<char>> {
    match o {
        Some(s) => Some(s@),
        None => None,
    }
}

/// A size option that was given and is an integer.
pub open spec fn given_size(o: Option<String>) -> Option<nat> {
    match o {
        Some(s) => match usize_from_text(s@) {
            Some(n) => Some(n as nat),
            None => None,
        },
        None => None,
    }
}

/// A size option that was given but is not an integer.
pub open spec fn not_integer(o: Option<String>) -> bool {
    o matches Some(s) && usize_from_text(s@) is None
}

/// Timeline width and height after the defaults: with no height the height
/// is a tenth of the width (which is 1000 if absent); with only a height the
/// width is ten times the height.
pub open spec fn resolved_size(w: Option<nat>, h: Option<nat>) -> (nat, nat) {
    match h {
        None => {
            let w = match w {
                Some(w) => w,
                None => DEFAULT_WIDTH as nat,
            };
            (w, w / 10)
        },
        Some(h) => match w {
            Some(w) => (w, h),
            None => (h * 10, h),
        },
    }
}

/// The thumbnail height option after its default; `None` if it is not an
/// integer.
pub open spec fn thumbnail_height_of(a: Arguments) -> Option<usize> {
    match a.thumbnail_height {
        Some(s) => usize_from_text(s@),
        None => Some(DEFAULT_THUMBNAIL_HEIGHT),
    }
}

/// The first rule that the arguments break, in the order they are checked,
/// given the extensions of the timeline and manifest file names.
pub open spec fn config_error(
    a: Arguments,
    timeline_ext: Option<Seq<char>>,
    thumbnails_ext: Option<Seq<char>>,
) -> Option<ConfigError> {
    let (w, h) = resolved_size(given_size(a.width), given_size(a.height));
    let th = thumbnail_height_of(a);
    if not_integer(a.width) {
        Some(ConfigError::WidthNotInteger)
    } else if not_integer(a.height) {
        Some(ConfigError::HeightNotInteger)
    } else if w < MIN_SIZE {
        Some(ConfigError::WidthTooSmall)
    } else if h < MIN_SIZE {
        Some(ConfigError::HeightTooSmall)
    } else if w > MAX_SIZE {
        Some(ConfigError::WidthTooLarge)
    } else if h > MAX_SIZE {
        Some(ConfigError::HeightTooLarge)
    } else if th is None {
        Some(ConfigError::ThumbnailHeightNotInteger)
    } else if th.unwrap() < MIN_SIZE {
        Some(ConfigError::ThumbnailHeightTooSmall)
    } else if th.unwrap() > MAX_SIZE {
        Some(ConfigError::ThumbnailHeightTooLarge)
    } else if a.timeline is Some && timeline_ext != Some("jpg"@) {
        Some(ConfigError::TimelineNotJpg)
    } else if a.thumbnails is Some && thumbnails_ext != Some("vtt"@) {
        Some(ConfigError::ThumbnailsNotVtt)
    } else {
        None
    }
}

/// Name of the timeline image: the one given, else (when no manifest is
/// wanted either) the input's name with `.timeline.jpg` appended.
pub open spec fn timeline_name(a: Arguments) -> Option<Seq<char>> {
    match a.timeline {
        Some(t) => Some(t@),
        None => if a.thumbnails is None {
            Some(a.input_filename@ + ".timeline.jpg"@)
        } else {
            None
        },
    }
}

/// What `validate_with_extensions` returns on success.
pub open spec fn is_validated(p: PartialConfig, a: Arguments) -> bool {
    let (w, h) = resolved_size(given_size(a.width), given_size(a.height));
    &&& p.width == w
    &&& p.height == h
    &&& Some(p.thumbnail_height) == thumbnail_height_of(a)
    &&& p.max_grid_width == MAX_GRID_WIDTH
    &&& p.max_grid_height == MAX_GRID_HEIGHT
    &&& p.input_filename@ == a.input_filename@
    &&& text_of(p.timeline_filename) == timeline_name(a)
    &&& text_of(p.vtt_filename) == text_of(a.thumbnails)
    &&& p.wf()
}

fn parse_size(o: &Option<String>) -> (r: Result<Option<usize>, ()>)
    ensures
        r is Err <==> not_integer(*o),
        r matches Ok(v) ==> (match v {
            Some(n) => given_size(*o) == Some(n as nat),
            None => o is None,
        }),
{
    match o {
        Some(s) => match parse_usize(s.as_str()) {
            Some(n) => Ok(Some(n)),
            None => Err(()),
        },
        None => Ok(None),
    }
}

fn is_text(s: &String, t: &str) -> (r: bool)
    ensures
        r == (s@ == t@),
{
    *s == String::from_str(t)
}

proof fn lemma_area_fits(w: int, h: int, bound: int)
    requires
        0 <= w <= bound,
        0 <= h <= bound,
        bound * bound * 4 <= usize::MAX,
    ensures
        w * h * 4 <= usize::MAX,
{
    assert(w * h <= bound * bound) by (nonlinear_arith)
        requires 0 <= w <= bound, 0 <= h <= bound;
}

/// Checks the arguments and applies the defaults, given the extensions of the
/// `--timeline` and `--thumbnails` file names (`None` where a name is absent
/// or has no extension).
pub fn validate_with_extensions(
    args: &Arguments,
    timeline_ext: Option<String>,
    thumbnails_ext: Option<String>,
) -> (r: Result<PartialConfig, ConfigError>)
    ensures
        match r {
            Ok(p) => config_error(*args, text_of(timeline_ext), text_of(thumbnails_ext)) is None
                && is_validated(p, *args),
            Err(e) => config_error(*args, text_of(timeline_ext), text_of(thumbnails_ext))
                == Some(e),
        },
{
    let width = match parse_size(&args.width) {
        Ok(v) => v,
        Err(_) => return Err(ConfigError::WidthNotInteger),
    };
    let height = match parse_size(&args.height) {
        Ok(v) => v,
        Err(_) => return Err(ConfigError::HeightNotInteger),
    };
    let (w, h): (usize, usize) = match height {
        None => {
            let w = match width {
                Some(w) => w,
                None => DEFAULT_WIDTH,
            };
            (w, w / 10)
        },
        Some(h) => match width {
            Some(w) => (w, h),
            None => (if h <= MAX_SIZE { h * 10 } else { usize::MAX }, h),
        },
    };
    let ghost spec_size = resolved_size(given_size(args.width), given_size(args.height));
    assert(w < MIN_SIZE <==> spec_size.0 < MIN_SIZE);
    assert(w > MAX_SIZE <==> spec_size.0 > MAX_SIZE);
    assert(w <= MAX_SIZE ==> w == spec_size.0);
    assert(h == spec_size.1);
    if w < MIN_SIZE {
        return Err(ConfigError::WidthTooSmall);
    }
    if h < MIN_SIZE {
        return Err(ConfigError::HeightTooSmall);
    }
    if w > MAX_SIZE {
        return Err(ConfigError::WidthTooLarge);
    }
    if h > MAX_SIZE {
        return Err(ConfigError::HeightTooLarge);
    }
    let thumbnail_height = match &args.thumbnail_height {
        Some(s) => parse_usize(s.as_str()),
        None => Some(DEFAULT_THUMBNAIL_HEIGHT),
    };
    let th = match thumbnail_height {
        Some(th) => th,
        None => return Err(ConfigError::ThumbnailHeightNotInteger),
    };
    if th < MIN_SIZE {
        return Err(ConfigError::ThumbnailHeightTooSmall);
    }
    if th > MAX_SIZE {
        return Err(ConfigError::ThumbnailHeightTooLarge);
    }
    let timeline_filename = match &args.timeline {
        Some(t) => {
            let is_jpg = match &timeline_ext {
                Some(e) => is_text(e, "jpg"),
                None => false,
            };
            if !is_jpg {
                return Err(ConfigError::TimelineNotJpg);
            }
            Some(t.clone())
        },
        None => match &args.thumbnails {
            Some(_) => None,
            None => {
                let mut name = args.input_filename.clone();
                name.append(".timeline.jpg");
                Some(name)
            },
        },
    };
    let vtt_filename = match &args.thumbnails {
        Some(v) => {
            let is_vtt = match &thumbnails_ext {
                Some(e) => is_text(e, "vtt"),
                None => false,
            };
            if !is_vtt {
                return Err(ConfigError::ThumbnailsNotVtt);
            }
            Some(v.clone())
        },
        None => None,
    };
    proof {
        lemma_area_fits(w as int, h as int, MAX_SIZE as int);
        lemma_area_fits(MAX_GRID_WIDTH as int, MAX_GRID_HEIGHT as int, MAX_GRID_WIDTH as int);
    }
    Ok(
        PartialConfig {
            width: w,
            height: h,
            thumbnail_height: th,
            max_grid_width: MAX_GRID_WIDTH,
            max_grid_height: MAX_GRID_HEIGHT,
            input_filename: args.input_filename.clone(),
            timeline_filename,
            vtt_filename,
        },
    )
}

/// Extension of an optional file name.
pub open spec fn extension_of_option(o: Option<String>) -> Option<Seq<char>> {
    match o {
        Some(s) => path_extension(s@),
        None => None,
    }
}

fn extension_of_name(o: &Option<String>) -> (r: Option<String>)
    ensures
        text_of(r) == extension_of_option(*o),
{
    match o {
        Some(s) => extension(s.as_str()),
        None => None,
    }
}

/// Checks the arguments of one run and applies the defaults: sizes must be
/// integers between 16 and 10000, the timeline must be a `.jpg` file and the
/// manifest a `.vtt` file.
pub fn validate(args: &Arguments) -> (r: Result<PartialConfig, ConfigError>)
    ensures
        match r {
            Ok(p) => config_error(
                *args,
                extension_of_option(args.timeline),
                extension_of_option(args.thumbnails),
            ) is None && is_validated(p, *args),
            Err(e) => config_error(
                *args,
                extension_of_option(args.timeline),
                extension_of_option(args.thumbnails),
            ) == Some(e),
        },
{
    let timeline_ext = extension_of_name(&args.timeline);
    let thumbnails_ext = extension_of_name(&args.thumbnails);
    validate_with_extensions(args, timeline_ext, thumbnails_ext)
}

/// Thumbnail width that keeps the video's aspect ratio at the given
/// thumbnail height, rounded down.
pub open spec fn derived_thumbnail_width(th: nat, frame_width: nat, frame_height: nat) -> nat {
    frame_width * th / frame_height
}

/// Why a frame size gives no usable thumbnail layout, if it does not.
pub open spec fn completion_error(p: PartialConfig, frame_width: nat, frame_height: nat) -> Option<
    ConfigError,
> {
    if frame_width == 0 || frame_height == 0 {
        Some(ConfigError::UnknownFrameSize)
    } else {
        let tw = derived_thumbnail_width(p.thumbnail_height as nat, frame_width, frame_height);
        if tw == 0 {
            Some(ConfigError::ThumbnailTooNarrow)
        } else if tw > p.max_grid_width {
            Some(ConfigError::ThumbnailTooWide)
        } else if p.thumbnail_height > p.max_grid_height {
            Some(ConfigError::ThumbnailTooTall)
        } else {
            None
        }
    }
}

impl PartialConfig {
    /// Completes the configuration once the video's frame size is known: the
    /// thumbnail width is `frame_width * thumbnail_height / frame_height`, and
    /// a thumbnail must fit into one grid.
    pub fn complete(self, frame_width: usize, frame_height: usize) -> (r: Result<Config, ConfigError>)
        requires
            self.wf(),
        ensures
            match r {
                Ok(c) => {
                    &&& completion_error(self, frame_width as nat, frame_height as nat) is None
                    &&& c.wf()
                    &&& c.width == self.width
                    &&& c.height == self.height
                    &&& c.thumbnail_width == derived_thumbnail_width(
                        self.thumbnail_height as nat,
                        frame_width as nat,
                        frame_height as nat,
                    )
                    &&& c.thumbnail_height == self.thumbnail_height
                    &&& c.max_grid_width == self.max_grid_width
                    &&& c.max_grid_height == self.max_grid_height
                    &&& c.input_filename == self.input_filename
                    &&& c.timeline_filename == self.timeline_filename
                    &&& c.vtt_filename == self.vtt_filename
                },
                Err(e) => completion_error(self, frame_width as nat, frame_height as nat) == Some(e),
            },
    {
        if frame_width == 0 || frame_height == 0 {
            return Err(ConfigError::UnknownFrameSize);
        }
        let fw = frame_width as u128;
        let th = self.thumbnail_height as u128;
        assert(fw * th <= u128::MAX) by (nonlinear_arith)
            requires fw <= usize::MAX, th <= usize::MAX, usize::MAX < 0x1_0000_0000_0000_0000;
        let tw = fw * th / (frame_height as u128);
        if tw == 0 {
            return Err(ConfigError::ThumbnailTooNarrow);
        }
        if tw > self.max_grid_width as u128 {
            return Err(ConfigError::ThumbnailTooWide);
        }
        if self.thumbnail_height > self.max_grid_height {
            return Err(ConfigError::ThumbnailTooTall);
        }
        Ok(
            Config {
                width: self.width,
                height: self.height,
                thumbnail_width: tw as usize,
                thumbnail_height: self.thumbnail_height,
                max_grid_width: self.max_grid_width,
                max_grid_height: self.max_grid_height,
                input_filename: self.input_filename,
                timeline_filename: self.timeline_filename,
                vtt_filename: self.vtt_filename,
            },
        )
    }
}

} // verus!
