//! Content of the printable enrollment handout: the details block, the
//! manual enrollment steps, and the QR code rasterized as a grayscale
//! bitmap.

use vstd::prelude::*;
use vstd::string::StringExecFns;
use vstd::string::StringSliceAdditionalSpecFns;

use crate::error::AdminError;
use crate::qr::{qr_module_grid, qr_modules};
use crate::report::lines_view;
use crate::text::owned;

verus! {

// ---------------------------------------------------------------------------
// Handout text
// ---------------------------------------------------------------------------

/// When a token expires, as far as the caller knows.
pub enum Expiry {
    /// The token never expires.
    Never,
    /// The token expires at this (already formatted) time.
    At(String),
    /// No server-confirmed status is known for the token.
    Unknown,
}

/// How an expiry is shown.
pub open spec fn expiry_text(e: Expiry) -> Seq<char> {
    match e {
        Expiry::Never => "never"@,
        Expiry::At(when) => when@,
        Expiry::Unknown => "unknown -- check `microtak-admin-cli token list`"@,
    }
}

impl Expiry {
    /// How this expiry is shown.
    pub fn to_string(&self) -> (r: String)
        ensures
            r@ == expiry_text(*self),
    {
        match self {
            Expiry::Never => owned("never"),
            Expiry::At(when) => owned(when.as_str()),
            Expiry::Unknown => owned("unknown -- check `microtak-admin-cli token list`"),
        }
    }
}

/// The three ways of showing an expiry differ from one another whatever
/// time is given, except that a time could spell one of the other two.
pub proof fn lemma_expiry_texts_distinct(at: String)
    ensures
        expiry_text(Expiry::Never) != expiry_text(Expiry::Unknown),
        at@ != "never"@ ==> expiry_text(Expiry::At(at)) != expiry_text(Expiry::Never),
        at@ != expiry_text(Expiry::Unknown) ==> expiry_text(Expiry::At(at)) != expiry_text(
            Expiry::Unknown,
        ),
{
    reveal_strlit("never");
    reveal_strlit("unknown -- check `microtak-admin-cli token list`");
    assert(expiry_text(Expiry::Never).len() != expiry_text(Expiry::Unknown).len());
}

/// What one handout shows.
pub struct HandoutInfo<'a> {
    pub token: &'a str,
    pub enrollment_url: &'a str,
    pub note: Option<&'a str>,
    pub expires_at: Expiry,
}

/// The details block: enrollment URL, token, expiry, and the note if any.
pub open spec fn handout_details(info: HandoutInfo) -> Seq<Seq<char>> {
    seq![
        "Enrollment URL: "@ + info.enrollment_url@,
        "Token: "@ + info.token@,
        "Expires: "@ + expiry_text(info.expires_at),
    ] + match info.note {
        Some(note) => seq!["Note: "@ + note@],
        None => Seq::empty(),
    }
}

/// The numbered manual enrollment steps.
pub open spec fn manual_steps(info: HandoutInfo) -> Seq<Seq<char>> {
    seq![
        "Install microtak-admin-cli on the device (or a machine that can reach it): https://github.com/microtak/microtak-admin-cli"@,
        "Run: microtak-admin-cli enroll --enrollment-url "@ + info.enrollment_url@
            + " --cn <device-name> --token "@ + info.token@
            + " --out-cert device.pem --out-key device.key"@,
        "Replace <device-name> with a unique name for this device -- it becomes its identity everywhere in MicroTAK."@,
        "Configure your TAK client (ATAK/iTAK/WinTAK) with the resulting device.pem/device.key and the server's CA certificate."@,
    ]
}

/// The lines of the handout's details block.
pub fn handout_detail_lines(info: &HandoutInfo) -> (r: Vec<String>)
    ensures
        lines_view(r@) == handout_details(*info),
{
    let mut lines: Vec<String> = Vec::new();
    let mut url = owned("Enrollment URL: ");
    url.append(info.enrollment_url);
    lines.push(url);
    let mut token = owned("Token: ");
    token.append(info.token);
    lines.push(token);
    let mut expires = owned("Expires: ");
    let shown = info.expires_at.to_string();
    expires.append(shown.as_str());
    lines.push(expires);
    match info.note {
        Some(note) => {
            let mut line = owned("Note: ");
            line.append(note);
            lines.push(line);
        },
        None => {},
    }
    assert(lines_view(lines@) =~= handout_details(*info));
    lines
}

/// The handout's manual enrollment steps, in order.
pub fn manual_step_lines(info: &HandoutInfo) -> (r: Vec<String>)
    ensures
        lines_view(r@) == manual_steps(*info),
{
    let mut lines: Vec<String> = Vec::new();
    lines.push(
        owned(
            "Install microtak-admin-cli on the device (or a machine that can reach it): https://github.com/microtak/microtak-admin-cli",
        ),
    );
    let mut run = owned("Run: microtak-admin-cli enroll --enrollment-url ");
    run.append(info.enrollment_url);
    run.append(" --cn <device-name> --token ");
    run.append(info.token);
    run.append(" --out-cert device.pem --out-key device.key");
    lines.push(run);
    lines.push(
        owned(
            "Replace <device-name> with a unique name for this device -- it becomes its identity everywhere in MicroTAK.",
        ),
    );
    lines.push(
        owned(
            "Configure your TAK client (ATAK/iTAK/WinTAK) with the resulting device.pem/device.key and the server's CA certificate.",
        ),
    );
    assert(lines_view(lines@) =~= manual_steps(*info));
    lines
}

// ---------------------------------------------------------------------------
// QR code as a bitmap
// ---------------------------------------------------------------------------

/// Pixels per QR module.
pub const MODULE_PIXELS: usize = 8;

/// Width of the light border around the code, in modules.
pub const QUIET_ZONE_MODULES: usize = 4;

/// A square 8-bit grayscale image, one vector of pixels per row (0 is
/// black, 255 white).
pub struct GrayBitmap {
    pub rows: Vec<Vec<u8>>,
}

/// Side in pixels of the bitmap of a code `modules` wide.
pub open spec fn bitmap_side(modules: int) -> int {
    (modules + 2 * QUIET_ZONE_MODULES) * MODULE_PIXELS
}

/// The module a pixel coordinate falls in, counted from the code's corner
/// (negative or past the code inside the quiet zone).
pub open spec fn module_of(p: int) -> int {
    p / (MODULE_PIXELS as int) - QUIET_ZONE_MODULES
}

/// Pixel at column `x`, row `y`: black exactly where it lies in a dark
/// module of the code, white elsewhere (the quiet zone included).
pub open spec fn qr_pixel(modules: int, cells: Seq<bool>, x: int, y: int) -> u8 {
    let mx = module_of(x);
    let my = module_of(y);
    if 0 <= mx < modules && 0 <= my < modules && cells[my * modules + mx] {
        0
    } else {
        255
    }
}

/// The bitmap of a module grid `modules` wide.
pub open spec fn qr_bitmap(modules: int, cells: Seq<bool>) -> Seq<Seq<u8>> {
    Seq::new(
        bitmap_side(modules) as nat,
        |y: int| Seq::new(bitmap_side(modules) as nat, |x: int| qr_pixel(modules, cells, x, y)),
    )
}

impl GrayBitmap {
    /// The rows of pixels.
    pub open spec fn pixels(&self) -> Seq<Seq<u8>> {
        self.rows@.map_values(|row: Vec<u8>| row@)
    }

    /// Side length in pixels.
    pub fn side(&self) -> (r: usize)
        ensures
            r == self.rows@.len(),
    {
        self.rows.len()
    }

    /// The pixel at column `x`, row `y`.
    pub fn pixel(&self, x: usize, y: usize) -> (r: u8)
        requires
            y < self.pixels().len(),
            x < self.pixels()[y as int].len(),
        ensures
            r == self.pixels()[y as int][x as int],
    {
        self.rows[y][x]
    }
}

proof fn lemma_cell_index(mx: int, my: int, m: int)
    requires
        0 <= mx < m,
        0 <= my < m,
        m <= 177,
    ensures
        0 <= my * m,
        0 <= my * m + mx < m * m,
        m * m <= 31329,
{
    assert(0 <= my * m && 0 <= my * m + mx < m * m && m * m <= 31329) by (nonlinear_arith)
        requires
            0 <= mx < m,
            0 <= my < m,
            m <= 177,
    ;
}

fn module_pixel(modules: usize, cells: &[bool], x: usize, y: usize) -> (r: u8)
    requires
        1 <= modules <= 177,
        cells@.len() == modules * modules,
        x < bitmap_side(modules as int),
        y < bitmap_side(modules as int),
    ensures
        r == qr_pixel(modules as int, cells@, x as int, y as int),
{
    let cx = x / MODULE_PIXELS;
    let cy = y / MODULE_PIXELS;
    if cx >= QUIET_ZONE_MODULES && cx - QUIET_ZONE_MODULES < modules && cy >= QUIET_ZONE_MODULES
        && cy - QUIET_ZONE_MODULES < modules {
        let mx = cx - QUIET_ZONE_MODULES;
        let my = cy - QUIET_ZONE_MODULES;
        proof {
            lemma_cell_index(mx as int, my as int, modules as int);
        }
        if cells[my * modules + mx] {
            0
        } else {
            255
        }
    } else {
        255
    }
}

/// Rasterizes a module grid `modules` wide: 8 pixels per module and a
/// 4-module white quiet zone on every side, dark modules black.
pub fn rasterize_modules(modules: usize, cells: &[bool]) -> (r: GrayBitmap)
    requires
        1 <= modules <= 177,
        cells@.len() == modules * modules,
    ensures
        r.pixels() == qr_bitmap(modules as int, cells@),
{
    let side = (modules + 2 * QUIET_ZONE_MODULES) * MODULE_PIXELS;
    let mut rows: Vec<Vec<u8>> = Vec::new();
    let mut y: usize = 0;
    while y < side
        invariant
            side == bitmap_side(modules as int),
            1 <= modules <= 177,
            cells@.len() == modules * modules,
            0 <= y <= side,
            rows@.len() == y,
            forall|j: int|
                0 <= j < y ==> #[trigger] rows@[j]@ == Seq::new(
                    side as nat,
                    |x: int| qr_pixel(modules as int, cells@, x, j),
                ),
        decreases side - y,
    {
        let mut row: Vec<u8> = Vec::new();
        let mut x: usize = 0;
        while x < side
            invariant
                side == bitmap_side(modules as int),
                1 <= modules <= 177,
                cells@.len() == modules * modules,
                y < side,
                0 <= x <= side,
                row@ == Seq::new(x as nat, |i: int| qr_pixel(modules as int, cells@, i, y as int)),
            decreases side - x,
        {
            let p = module_pixel(modules, cells, x, y);
            row.push(p);
            x = x + 1;
            assert(row@ =~= Seq::new(x as nat, |i: int| qr_pixel(modules as int, cells@, i, y as int)));
        }
        rows.push(row);
        y = y + 1;
    }
    let r = GrayBitmap { rows };
    assert(r.pixels() =~= qr_bitmap(modules as int, cells@));
    r
}

/// The handout's QR code for `payload` as a bitmap.
pub fn rasterize_qr(payload: &str) -> (r: Result<GrayBitmap, AdminError>)
    ensures
        match qr_modules(payload.spec_bytes()) {
            Some((modules, cells)) => r matches Ok(b) && b.pixels() == qr_bitmap(
                modules as int,
                cells,
            ),
            None => r matches Err(e) && e is QrEncoding,
        },
{
    let bytes = payload.as_bytes();
    match qr_module_grid(bytes) {
        Ok((modules, cells)) => Ok(rasterize_modules(modules, cells.as_slice())),
        Err(_) => Err(AdminError::QrEncoding),
    }
}

/// The quiet zone stays white: every pixel within 32 pixels of an edge of
/// the bitmap is 255, whatever the code.
pub proof fn lemma_quiet_zone_is_white(modules: int, cells: Seq<bool>, x: int, y: int)
    requires
        1 <= modules,
        0 <= x < bitmap_side(modules),
        0 <= y < bitmap_side(modules),
        x < 32 || y < 32 || x >= bitmap_side(modules) - 32 || y >= bitmap_side(modules) - 32,
    ensures
        qr_bitmap(modules, cells)[y][x] == 255,
{
    assert(qr_bitmap(modules, cells)[y][x] == qr_pixel(modules, cells, x, y));
    if x >= bitmap_side(modules) - 32 {
        assert(x / 8 >= modules + 4);
    }
    if y >= bitmap_side(modules) - 32 {
        assert(y / 8 >= modules + 4);
    }
}

/// Each module becomes a solid 8x8 block: all 64 pixels of module
/// (mx, my) are black when it is dark and white when it is light.
pub proof fn lemma_module_block(modules: int, cells: Seq<bool>, mx: int, my: int, dx: int, dy: int)
    requires
        0 <= mx < modules,
        0 <= my < modules,
        0 <= dx < 8,
        0 <= dy < 8,
    ensures
        ({
            let x = (mx + 4) * 8 + dx;
            let y = (my + 4) * 8 + dy;
            &&& 0 <= x < bitmap_side(modules)
            &&& 0 <= y < bitmap_side(modules)
            &&& qr_bitmap(modules, cells)[y][x] == if cells[my * modules + mx] {
                0u8
            } else {
                255u8
            }
        }),
{
    let x = (mx + 4) * 8 + dx;
    let y = (my + 4) * 8 + dy;
    assert(x / 8 == mx + 4);
    assert(y / 8 == my + 4);
    assert(qr_bitmap(modules, cells)[y][x] == qr_pixel(modules, cells, x, y));
}

} // verus!
