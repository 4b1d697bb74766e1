//! The console: claimed, and given back as it was found.
//!
//! A claim is a row of device calls, each made by the caller; what each came to
//! decides the next. The keyboard's mode is read before anything is changed, so
//! a device that is no console is refused untouched.
use vstd::prelude::*;
use crate::text;

verus! {

pub const KD_TEXT: i32 = 0;

pub const KD_GRAPHICS: i32 = 1;

pub const KDSETMODE: u64 = 0x4B3A;

pub const KDGKBMODE: u64 = 0x4B44;

pub const KDSKBMODE: u64 = 0x4B45;

/// The error of a device that does not know a call.
pub const ENOTTY: i32 = 25;

/// The error of a device that does not know an argument.
pub const EINVAL: i32 = 22;

/// What a claimed console is put into.
#[derive(Debug, Clone, Copy, PartialEq, Eq, Structural)]
pub enum Mode {
    /// The kernel goes on drawing.
    Text,
    /// Whoever claimed it draws.
    Graphics,
}

impl Mode {
    pub open spec fn number(self) -> i32 {
        match self {
            Mode::Text => KD_TEXT,
            Mode::Graphics => KD_GRAPHICS,
        }
    }

    /// The kernel's number for it.
    pub fn value(self) -> (n: i32)
        ensures
            n == self.number(),
    {
        match self {
            Mode::Text => KD_TEXT,
            Mode::Graphics => KD_GRAPHICS,
        }
    }
}

/// What can go wrong with a console.
#[derive(Debug, PartialEq, Eq)]
pub enum VtError {
    Open { path: String, errno: i32 },
    /// The device is no console.
    NotATty(String),
    ReadMode(i32),
    SetMode(i32),
}

impl VtError {
    /// The error in words.
    pub fn message(&self) -> (s: String)
        ensures
            match self {
                VtError::Open { path, errno } => s@ == "opening "@ + path@ + ": "@ + text::signed(
                    *errno as int,
                ),
                VtError::NotATty(path) => s@ == "this is not a console: "@ + path@,
                VtError::ReadMode(e) => s@ == "reading the keyboard mode: errno "@ + text::signed(
                    *e as int,
                ),
                VtError::SetMode(e) => s@ == "setting graphics mode: errno "@ + text::signed(
                    *e as int,
                ),
            },
    {
        match self {
            VtError::Open { path, errno } => {
                let mut s: String = "opening ".to_owned();
                s.append(path.as_str());
                s.append(": ");
                s.append(text::signed_of(*errno as i64).as_str());
                s
            },
            VtError::NotATty(path) => {
                let mut s: String = "this is not a console: ".to_owned();
                s.append(path.as_str());
                s
            },
            VtError::ReadMode(e) => {
                let mut s: String = "reading the keyboard mode: errno ".to_owned();
                s.append(text::signed_of(*e as i64).as_str());
                s
            },
            VtError::SetMode(e) => {
                let mut s: String = "setting graphics mode: errno ".to_owned();
                s.append(text::signed_of(*e as i64).as_str());
                s
            },
        }
    }
}

/// A call that is made on a console.
#[derive(Debug, Clone, Copy, PartialEq, Eq, Structural)]
pub enum VtCall {
    Open,
    /// Read the mode of the keyboard.
    ReadKeyboard,
    /// Set the mode of the display.
    SetDisplay(i32),
    /// Set the mode of the keyboard.
    SetKeyboard(i32),
}

/// A claim in progress: the calls that have been answered, and the mode of the
/// keyboard once it was read.
#[derive(Debug)]
pub struct Claim {
    pub path: String,
    pub mode: Mode,
    pub open: bool,
    pub prior: Option<i32>,
}

/// What an answer leads to.
#[derive(Debug)]
pub enum Progress {
    More(Claim),
    Claimed(Console),
}

/// A claimed console.
#[derive(Debug)]
pub struct Console {
    /// The mode of the keyboard before the claim.
    pub prior_kbmode: i32,
    pub restored: bool,
}

/// The device of a virtual terminal.
pub open spec fn device_text(vtnr: u32) -> Seq<char> {
    "/dev/tty"@ + text::decimal(vtnr as nat)
}

/// The device of a virtual terminal.
pub fn device_path(vtnr: u32) -> (s: String)
    ensures
        s@ == device_text(vtnr),
{
    let mut s: String = "/dev/tty".to_owned();
    s.append(text::decimal_of(vtnr as u64).as_str());
    s
}

impl Claim {
    pub open spec fn calls(self) -> VtCall {
        if !self.open {
            VtCall::Open
        } else if self.prior is None {
            VtCall::ReadKeyboard
        } else {
            VtCall::SetDisplay(self.mode.number())
        }
    }

    /// The call to make next.
    pub fn next(&self) -> (c: VtCall)
        ensures
            c == self.calls(),
    {
        if !self.open {
            return VtCall::Open;
        }
        match self.prior {
            None => VtCall::ReadKeyboard,
            Some(_) => VtCall::SetDisplay(self.mode.value()),
        }
    }

    /// Takes in what the call came to: a value, or the error number.
    pub fn answered(self, r: Result<i32, i32>) -> (p: Result<Progress, VtError>)
        ensures
            match (self.calls(), r) {
                (VtCall::Open, Ok(_)) => p matches Ok(Progress::More(c)) && c == (Claim {
                    open: true,
                    ..self
                }),
                (VtCall::Open, Err(e)) => p matches Err(x) && x == (VtError::Open {
                    path: self.path,
                    errno: e,
                }),
                (VtCall::ReadKeyboard, Ok(prior)) => p matches Ok(Progress::More(c)) && c == (Claim {
                    prior: Some(prior),
                    ..self
                }),
                (VtCall::ReadKeyboard, Err(e)) => p matches Err(x) && x == (if e == ENOTTY || e
                    == EINVAL {
                    VtError::NotATty(self.path)
                } else {
                    VtError::ReadMode(e)
                }),
                (_, Ok(_)) => p matches Ok(Progress::Claimed(c)) && self.prior == Some(c.prior_kbmode)
                    && !c.restored,
                (_, Err(e)) => p matches Err(x) && x == VtError::SetMode(e),
            },
    {
        let call: VtCall = self.next();
        match (call, r) {
            (VtCall::Open, Ok(_)) => Ok(
                Progress::More(
                    Claim { path: self.path, mode: self.mode, open: true, prior: self.prior },
                ),
            ),
            (VtCall::Open, Err(e)) => Err(VtError::Open { path: self.path, errno: e }),
            (VtCall::ReadKeyboard, Ok(prior)) => Ok(
                Progress::More(
                    Claim { path: self.path, mode: self.mode, open: self.open, prior: Some(prior) },
                ),
            ),
            (VtCall::ReadKeyboard, Err(e)) => if e == ENOTTY || e == EINVAL {
                Err(VtError::NotATty(self.path))
            } else {
                Err(VtError::ReadMode(e))
            },
            (_, Ok(_)) => match self.prior {
                Some(prior_kbmode) => Ok(Progress::Claimed(Console { prior_kbmode, restored: false })),
                None => Err(VtError::NotATty(self.path)),
            },
            (_, Err(e)) => Err(VtError::SetMode(e)),
        }
    }
}

impl Console {
    /// Starts a claim of a virtual terminal.
    pub fn claim(vtnr: u32, mode: Mode) -> (c: Claim)
        ensures
            c.path@ == device_text(vtnr),
            c.mode == mode,
            !c.open,
            c.prior is None,
    {
        Claim { path: device_path(vtnr), mode, open: false, prior: None }
    }

    /// Starts a claim of the device at a path.
    pub fn claim_path(path: &str, mode: Mode) -> (c: Claim)
        ensures
            c.path@ == path@,
            c.mode == mode,
            !c.open,
            c.prior is None,
    {
        Claim { path: path.to_owned(), mode, open: false, prior: None }
    }

    /// Starts giving the console back; it is given back once. What is to be
    /// called first is the keyboard's mode, as it was read.
    pub fn restore(&mut self) -> (c: Option<VtCall>)
        ensures
            final(self).restored,
            final(self).prior_kbmode == old(self).prior_kbmode,
            c == (if old(self).restored {
                None
            } else {
                Some(VtCall::SetKeyboard(old(self).prior_kbmode))
            }),
    {
        if self.restored {
            return None;
        }
        self.restored = true;
        Some(VtCall::SetKeyboard(self.prior_kbmode))
    }
}

/// What giving a console back goes on with after a call: the display's text
/// mode after the keyboard, and nothing after that.
pub fn restoring(made: VtCall, r: Result<(), i32>) -> (n: Result<Option<VtCall>, VtError>)
    ensures
        match r {
            Err(e) => n matches Err(x) && x == VtError::SetMode(e),
            Ok(_) => n matches Ok(c) && c == (if made is SetKeyboard {
                Some(VtCall::SetDisplay(KD_TEXT))
            } else {
                None
            }),
        },
{
    match r {
        Err(e) => Err(VtError::SetMode(e)),
        Ok(_) => match made {
            VtCall::SetKeyboard(_) => Ok(Some(VtCall::SetDisplay(KD_TEXT))),
            _ => Ok(None),
        },
    }
}

/// The display is touched only on a device whose keyboard's mode could be read.
pub proof fn a_device_that_is_no_console_is_left_alone(c: Claim)
    requires
        c.calls() is SetDisplay,
    ensures
        c.open,
        c.prior is Some,
{
}

/// A claim opens the device, then reads the keyboard's mode, then sets the display
/// to what was asked for: graphics for who draws, text for who does not.
pub proof fn a_claim_is_made_in_order(c: Claim)
    ensures
        c.calls() is Open <==> !c.open,
        c.calls() is ReadKeyboard <==> c.open && c.prior is None,
        c.open && c.prior is Some && c.mode is Text ==> c.calls() == VtCall::SetDisplay(0),
        c.open && c.prior is Some && c.mode is Graphics ==> c.calls() == VtCall::SetDisplay(1),
{
}

/// The device of a terminal is named by its number, and no two terminals share one.
pub proof fn a_terminal_has_its_own_device(a: u32, b: u32)
    ensures
        "/dev/tty"@.is_prefix_of(device_text(a)),
        text::u32_of(device_text(a).skip(8)) == Some(a),
        device_text(a) == device_text(b) ==> a == b,
{
    reveal_strlit("/dev/tty");
    assert("/dev/tty"@.len() == 8);
    assert(device_text(a).skip(8) =~= text::decimal(a as nat));
    assert(device_text(b).skip(8) =~= text::decimal(b as nat));
    text::a_written_number_reads_back(a as int);
    text::a_written_number_reads_back(b as int);
}

} // verus!
