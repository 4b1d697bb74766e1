//! The login screen: two fields, what may be typed into them, and where they
//! are drawn.
//!
//! The fields are egaku's widgets. The masked one is read in one place, by the
//! session that answers with it; drawing needs its length alone.
use egaku::{SecretInput, TextInput};
use vstd::prelude::*;
use crate::text;

verus! {

/// `egaku::TextInput`: a line of text with a cursor.
#[verifier::external_type_specification]
#[verifier::external_body]
pub struct ExTextInput(TextInput);

/// `egaku::SecretInput`: a line of secret text with a cursor, which is wiped
/// when it is dropped.
#[verifier::external_type_specification]
#[verifier::external_body]
pub struct ExSecretInput(SecretInput);

/// The text that a line holds.
pub uninterp spec fn line_text(f: TextInput) -> Seq<char>;

/// Whether the cursor of a line is at its end and nothing is selected.
pub uninterp spec fn line_at_end(f: TextInput) -> bool;

/// The text that a secret line holds.
pub uninterp spec fn secret_text(f: SecretInput) -> Seq<char>;

/// Whether the cursor of a secret line is at its end.
pub uninterp spec fn secret_at_end(f: SecretInput) -> bool;

/// What [`TextInput::delete_back`] leaves of a text, with the cursor at its end.
pub uninterp spec fn after_delete_back(s: Seq<char>) -> Seq<char>;

/// What [`SecretInput::backspace`] leaves of a text, with the cursor at its end.
pub uninterp spec fn after_backspace(s: Seq<char>) -> Seq<char>;

/// How many cells [`SecretInput::mask_len`] counts for a text.
pub uninterp spec fn mask_cells(s: Seq<char>) -> nat;

/// `TextInput::new`: an empty line.
#[verifier::external_body]
fn new_line() -> (f: TextInput)
    ensures
        line_text(f) == Seq::<char>::empty(),
        line_at_end(f),
{
    TextInput::new()
}

/// `TextInput::text`: the text of a line.
#[verifier::external_body]
fn line_str(f: &TextInput) -> (s: &str)
    ensures
        s@ == line_text(*f),
{
    f.text()
}

/// `TextInput::insert_char` with the cursor at the end: the character is added
/// there, and the cursor is behind it.
#[verifier::external_body]
fn line_insert(f: &mut TextInput, c: char)
    requires
        line_at_end(*old(f)),
    ensures
        line_text(*final(f)) == line_text(*old(f)).push(c),
        line_at_end(*final(f)),
{
    f.insert_char(c)
}

/// `TextInput::delete_back` with the cursor at the end: the last grapheme is
/// taken away. What that leaves is named by [`after_delete_back`]; it is a
/// beginning of the text, shorter where there was any.
#[verifier::external_body]
fn line_delete_back(f: &mut TextInput)
    requires
        line_at_end(*old(f)),
    ensures
        line_text(*final(f)) == after_delete_back(line_text(*old(f))),
        line_text(*final(f)).is_prefix_of(line_text(*old(f))),
        line_text(*old(f)).len() > 0 ==> line_text(*final(f)).len() < line_text(*old(f)).len(),
        line_at_end(*final(f)),
{
    f.delete_back()
}

/// `SecretInput::new`: an empty secret line.
#[verifier::external_body]
fn new_secret() -> (f: SecretInput)
    ensures
        secret_text(f) == Seq::<char>::empty(),
        secret_at_end(f),
{
    SecretInput::new()
}

/// `SecretInput::expose_secret`: the text of a secret line.
#[verifier::external_body]
fn secret_str(f: &SecretInput) -> (s: &str)
    ensures
        s@ == secret_text(*f),
{
    f.expose_secret()
}

/// `SecretInput::insert_char` with the cursor at the end: the character is added
/// there, and the cursor is behind it.
#[verifier::external_body]
fn secret_insert(f: &mut SecretInput, c: char)
    requires
        secret_at_end(*old(f)),
    ensures
        secret_text(*final(f)) == secret_text(*old(f)).push(c),
        secret_at_end(*final(f)),
{
    f.insert_char(c)
}

/// `SecretInput::backspace` with the cursor at the end: the last grapheme is
/// taken away. What that leaves is named by [`after_backspace`]; it is a
/// beginning of the text, shorter where there was any.
#[verifier::external_body]
fn secret_backspace(f: &mut SecretInput)
    requires
        secret_at_end(*old(f)),
    ensures
        secret_text(*final(f)) == after_backspace(secret_text(*old(f))),
        secret_text(*final(f)).is_prefix_of(secret_text(*old(f))),
        secret_text(*old(f)).len() > 0 ==> secret_text(*final(f)).len() < secret_text(
            *old(f),
        ).len(),
        secret_at_end(*final(f)),
{
    f.backspace()
}

/// `SecretInput::mask_len`: the number of graphemes, named by [`mask_cells`].
/// It is at most the number of characters, and none only where there is none.
#[verifier::external_body]
fn secret_mask_len(f: &SecretInput) -> (n: usize)
    ensures
        n == mask_cells(secret_text(*f)),
        n <= secret_text(*f).len(),
        n == 0 <==> secret_text(*f).len() == 0,
{
    f.mask_len()
}

/// Which field has the focus.
#[derive(Debug, Clone, Copy, PartialEq, Eq, Structural)]
pub enum Field {
    User,
    Secret,
}

/// What a key comes to.
#[derive(Debug, Clone, Copy, PartialEq, Eq, Structural)]
pub enum Action {
    /// Move the focus.
    Focus(Field),
    /// Type a character into the field that has the focus.
    Type(char),
    Backspace,
    /// Submit what has been collected.
    Submit,
    /// Give up this attempt and clear both fields.
    Reset,
}

/// The keys of the login screen, and what each comes to.
pub open spec fn key_table() -> Seq<(Seq<char>, Action)> {
    seq![
        ("tab"@, Action::Focus(Field::Secret)),
        ("enter"@, Action::Submit),
        ("esc"@, Action::Reset),
        ("backspace"@, Action::Backspace),
    ]
}

/// The keys of the login screen, and what each comes to.
pub fn bindings() -> (v: Vec<(&'static str, Action)>)
    ensures
        v@.len() == key_table().len(),
        forall|i: int| 0 <= i < v@.len() ==> (#[trigger] v@[i]).0@ == key_table()[i].0 && v@[i].1
            == key_table()[i].1,
{
    let mut v: Vec<(&'static str, Action)> = Vec::new();
    v.push(("tab", Action::Focus(Field::Secret)));
    v.push(("enter", Action::Submit));
    v.push(("esc", Action::Reset));
    v.push(("backspace", Action::Backspace));
    v
}

/// A key that was pressed or let go, as far as typing goes by it.
#[derive(Debug, Clone, Copy, PartialEq, Eq, Structural)]
pub struct KeyPress {
    /// Whether it was pressed, and neither held nor let go.
    pub pressed: bool,
    pub control: bool,
    pub alt: bool,
    pub logo: bool,
    /// The character of a key that has one.
    pub ch: Option<char>,
}

/// The character that a key types. A key that is held together with a modifier
/// is a chord and types nothing.
pub fn text_char(k: &KeyPress) -> (c: Option<char>)
    ensures
        c == (if k.pressed && !k.control && !k.alt && !k.logo {
            k.ch
        } else {
            None
        }),
{
    if !k.pressed || k.control || k.alt || k.logo {
        return None;
    }
    k.ch
}

/// What the login screen has collected, and what it shows.
pub struct Face {
    user: TextInput,
    masked: SecretInput,
    focus: Field,
    prompt: Option<String>,
    notice: Option<String>,
    quit: bool,
}

pub struct FaceView {
    pub user: Seq<char>,
    pub masked: Seq<char>,
    pub focus: Field,
    /// What was last asked.
    pub prompt: Option<Seq<char>>,
    /// What is to be told.
    pub notice: Option<Seq<char>>,
    pub quit: bool,
}

/// The screen before anything was typed.
pub open spec fn fresh() -> FaceView {
    FaceView {
        user: Seq::empty(),
        masked: Seq::empty(),
        focus: Field::User,
        prompt: None,
        notice: None,
        quit: false,
    }
}

/// The screen with both fields empty.
pub open spec fn cleared(v: FaceView) -> FaceView {
    FaceView { user: Seq::empty(), masked: Seq::empty(), focus: Field::User, ..v }
}

/// The screen after an action.
pub open spec fn handled(v: FaceView, action: Action) -> FaceView {
    match action {
        Action::Focus(f) => FaceView { focus: f, ..v },
        Action::Type(c) => match v.focus {
            Field::User => FaceView { user: v.user.push(c), ..v },
            Field::Secret => FaceView { masked: v.masked.push(c), ..v },
        },
        Action::Backspace => match v.focus {
            Field::User => FaceView { user: after_delete_back(v.user), ..v },
            Field::Secret => FaceView { masked: after_backspace(v.masked), ..v },
        },
        Action::Submit => FaceView { focus: Field::Secret, ..v },
        Action::Reset => cleared(v),
    }
}

impl Face {
    #[verifier::type_invariant]
    spec fn at_end(self) -> bool {
        line_at_end(self.user) && secret_at_end(self.masked)
    }

    pub closed spec fn view(&self) -> FaceView {
        FaceView {
            user: line_text(self.user),
            masked: secret_text(self.masked),
            focus: self.focus,
            prompt: text::opt_text(self.prompt),
            notice: text::opt_text(self.notice),
            quit: self.quit,
        }
    }

    pub fn new() -> (f: Self)
        ensures
            f@ == fresh(),
    {
        Face {
            user: new_line(),
            masked: new_secret(),
            focus: Field::User,
            prompt: None,
            notice: None,
            quit: false,
        }
    }

    /// The user's name, as it was typed.
    pub fn username(&self) -> (s: &str)
        ensures
            s@ == self@.user,
    {
        line_str(&self.user)
    }

    /// The secret, as it was typed: for the one who answers with it.
    pub(crate) fn expose(&self) -> (s: &str)
        ensures
            s@ == self@.masked,
    {
        secret_str(&self.masked)
    }

    /// How many cells the masked field shows.
    pub fn mask_len(&self) -> (n: usize)
        ensures
            n == mask_cells(self@.masked),
            n == 0 <==> self@.masked.len() == 0,
    {
        secret_mask_len(&self.masked)
    }

    /// Which field has the focus.
    pub fn focus(&self) -> (f: Field)
        ensures
            f == self@.focus,
    {
        self.focus
    }

    /// What was last asked.
    pub fn prompt(&self) -> (s: Option<&str>)
        ensures
            match s {
                Some(x) => self@.prompt == Some(x@),
                None => self@.prompt is None,
            },
    {
        match &self.prompt {
            Some(s) => Some(s.as_str()),
            None => None,
        }
    }

    /// What is to be told.
    pub fn notice(&self) -> (s: Option<&str>)
        ensures
            match s {
                Some(x) => self@.notice == Some(x@),
                None => self@.notice is None,
            },
    {
        match &self.notice {
            Some(s) => Some(s.as_str()),
            None => None,
        }
    }

    /// The line of the name, to be drawn.
    pub fn user_line(&self) -> (f: &TextInput)
        ensures
            line_text(*f) == self@.user,
    {
        &self.user
    }

    /// The masked line, to be drawn.
    pub fn masked_line(&self) -> (f: &SecretInput)
        ensures
            secret_text(*f) == self@.masked,
    {
        &self.masked
    }

    /// Whether the screen is done with.
    pub fn should_quit(&self) -> (b: bool)
        ensures
            b == self@.quit,
    {
        self.quit
    }

    /// Clears both fields.
    pub fn reset(&mut self)
        ensures
            final(self)@ == cleared(old(self)@),
    {
        proof {
            use_type_invariant(&*self);
        }
        let user: TextInput = new_line();
        let masked: SecretInput = new_secret();
        self.user = user;
        self.masked = masked;
        self.focus = Field::User;
    }

    /// Shows what is asked, and moves to the field that it is answered in.
    pub fn ask(&mut self, prompt: String, secret: bool)
        ensures
            final(self)@ == (FaceView {
                prompt: Some(prompt@),
                focus: if secret {
                    Field::Secret
                } else {
                    Field::User
                },
                ..old(self)@
            }),
    {
        proof {
            use_type_invariant(&*self);
        }
        self.prompt = Some(prompt);
        self.focus = if secret {
            Field::Secret
        } else {
            Field::User
        };
    }

    /// Shows what is told.
    pub fn tell(&mut self, notice: String)
        ensures
            final(self)@ == (FaceView { notice: Some(notice@), ..old(self)@ }),
    {
        proof {
            use_type_invariant(&*self);
        }
        self.notice = Some(notice);
    }

    /// Marks the screen as done with.
    pub fn leave(&mut self)
        ensures
            final(self)@ == (FaceView { quit: true, ..old(self)@ }),
    {
        proof {
            use_type_invariant(&*self);
        }
        self.quit = true;
    }

    /// Clears the masked field.
    pub fn clear_masked(&mut self)
        ensures
            final(self)@ == (FaceView { masked: Seq::empty(), ..old(self)@ }),
    {
        proof {
            use_type_invariant(&*self);
        }
        let masked: SecretInput = new_secret();
        self.masked = masked;
    }

    /// Does what a key came to. Submitting from the field of the name moves on
    /// to the secret, so that no empty one is sent.
    pub fn handle(&mut self, action: Action)
        ensures
            final(self)@ == handled(old(self)@, action),
            final(self)@.prompt == old(self)@.prompt,
            final(self)@.notice == old(self)@.notice,
            final(self)@.quit == old(self)@.quit,
            action is Backspace ==> {
                &&& final(self)@.focus == old(self)@.focus
                &&& final(self)@.user.is_prefix_of(old(self)@.user)
                &&& final(self)@.masked.is_prefix_of(old(self)@.masked)
                &&& old(self)@.focus == Field::User ==> final(self)@.masked == old(self)@.masked
                    && (old(self)@.user.len() > 0 ==> final(self)@.user.len() < old(
                    self,
                )@.user.len())
                &&& old(self)@.focus == Field::Secret ==> final(self)@.user == old(self)@.user
                    && (old(self)@.masked.len() > 0 ==> final(self)@.masked.len() < old(
                    self,
                )@.masked.len())
            },
    {
        proof {
            use_type_invariant(&*self);
        }
        match action {
            Action::Focus(f) => {
                self.focus = f;
            },
            Action::Type(c) => match self.focus {
                Field::User => {
                    let mut line: TextInput = new_line();
                    std::mem::swap(&mut line, &mut self.user);
                    line_insert(&mut line, c);
                    self.user = line;
                },
                Field::Secret => {
                    let mut line: SecretInput = new_secret();
                    std::mem::swap(&mut line, &mut self.masked);
                    secret_insert(&mut line, c);
                    self.masked = line;
                },
            },
            Action::Backspace => match self.focus {
                Field::User => {
                    let mut line: TextInput = new_line();
                    std::mem::swap(&mut line, &mut self.user);
                    line_delete_back(&mut line);
                    self.user = line;
                },
                Field::Secret => {
                    let mut line: SecretInput = new_secret();
                    std::mem::swap(&mut line, &mut self.masked);
                    secret_backspace(&mut line);
                    self.masked = line;
                },
            },
            Action::Submit => {
                self.focus = Field::Secret;
            },
            Action::Reset => {
                self.reset();
            },
        }
    }

    /// Takes a key that no binding claims: a character is typed.
    pub fn on_unhandled(&mut self, k: &KeyPress)
        ensures
            final(self)@ == (if k.pressed && !k.control && !k.alt && !k.logo && k.ch is Some {
                handled(old(self)@, Action::Type(k.ch->0))
            } else {
                old(self)@
            }),
    {
        if let Some(c) = text_char(k) {
            self.handle(Action::Type(c));
        }
    }

    /// Fills the name in, character by character.
    pub fn prefill(&mut self, name: &str)
        ensures
            final(self)@ == (FaceView { user: old(self)@.user + name@, ..old(self)@ }),
    {
        let focus: Field = self.focus;
        self.handle(Action::Focus(Field::User));
        let ghost start = self@;
        let v: Vec<char> = crate::text::chars_of(name);
        let mut i: usize = 0;
        assert(start.user + name@.take(0) =~= start.user);
        while i < v.len()
            invariant
                i <= v.len(),
                v@ == name@,
                start.focus == Field::User,
                self@ == (FaceView { user: start.user + name@.take(i as int), ..start }),
            decreases v.len() - i,
        {
            self.handle(Action::Type(v[i]));
            assert(self@.user =~= start.user + name@.take(i + 1));
            i = i + 1;
        }
        assert(name@.take(i as int) =~= name@);
        self.handle(Action::Focus(focus));
    }
}

/// Where the parts of the screen are drawn.
#[derive(Debug, Clone, Copy, PartialEq, Eq, Structural)]
pub struct Layout {
    pub x: u16,
    pub width: u16,
    pub prompt_y: u16,
    pub user_y: u16,
    pub masked_y: u16,
    pub notice_y: u16,
}

/// Where the parts are drawn on a screen of this size: a box of at most
/// forty-eight columns in the middle, a third of the way down.
pub fn layout(w: u16, h: u16) -> (l: Layout)
    ensures
        l.width == (if w < 48 {
            w as int
        } else {
            48
        }),
        l.x == (w - l.width) / 2,
        l.user_y == h as int / 3,
        l.prompt_y == (if l.user_y < 2 {
            0
        } else {
            l.user_y - 2
        }),
        l.masked_y == l.user_y + 2,
        l.notice_y == l.user_y + 4,
        l.x + l.width <= w,
{
    let width: u16 = if w < 48 {
        w
    } else {
        48
    };
    let x: u16 = (w - width) / 2;
    let y: u16 = h / 3;
    let prompt_y: u16 = if y < 2 {
        0
    } else {
        y - 2
    };
    Layout { x, width, prompt_y, user_y: y, masked_y: y + 2, notice_y: y + 4 }
}

/// What is typed reaches the field that has the focus, and no other.
pub proof fn typing_reaches_one_field(v: FaceView, c: char)
    ensures
        v.focus == Field::User ==> handled(v, Action::Type(c)).masked == v.masked && handled(
            v,
            Action::Type(c),
        ).user == v.user.push(c),
        v.focus == Field::Secret ==> handled(v, Action::Type(c)).user == v.user && handled(
            v,
            Action::Type(c),
        ).masked == v.masked.push(c),
{
}

/// Clearing leaves nothing behind in either field, whatever was typed.
pub proof fn a_reset_leaves_nothing(v: FaceView)
    ensures
        handled(v, Action::Reset).user.len() == 0,
        handled(v, Action::Reset).masked.len() == 0,
        handled(v, Action::Reset).focus == Field::User,
{
}

/// Submitting from the field of the name changes the focus and nothing else.
pub proof fn submitting_a_name_moves_on(v: FaceView)
    ensures
        handled(v, Action::Submit) == (FaceView { focus: Field::Secret, ..v }),
{
}

/// An action leaves what is shown beside the fields as it is. Moving the focus and
/// submitting leave both fields as they are; deleting leaves the field without the
/// focus as it is; typing adds one character, at the end of the field with the
/// focus.
pub proof fn an_action_does_that_and_no_more(v: FaceView, action: Action)
    ensures
        ({
            let w = handled(v, action);
            &&& w.prompt == v.prompt
            &&& w.notice == v.notice
            &&& w.quit == v.quit
            &&& action matches Action::Focus(f) ==> w.focus == f && w.user == v.user && w.masked
                == v.masked
            &&& action is Submit ==> w.focus == Field::Secret && w.user == v.user && w.masked
                == v.masked
            &&& action is Backspace ==> w.focus == v.focus
            &&& action is Backspace && v.focus == Field::User ==> w.masked == v.masked
            &&& action is Backspace && v.focus == Field::Secret ==> w.user == v.user
            &&& action matches Action::Type(c) ==> {
                &&& w.focus == v.focus
                &&& v.focus == Field::User ==> w.masked == v.masked && w.user == v.user + seq![c]
                &&& v.focus == Field::Secret ==> w.user == v.user && w.masked == v.masked + seq![c]
            }
            &&& action is Reset ==> w.focus == Field::User && w.user == Seq::<char>::empty()
                && w.masked == Seq::<char>::empty()
        }),
{
    if action is Type {
        let c = action->Type_0;
        assert(v.user.push(c) =~= v.user + seq![c]);
        assert(v.masked.push(c) =~= v.masked + seq![c]);
    }
}

/// The screen has four keys, each of which does one thing, and no key stands for
/// two.
pub proof fn each_key_does_one_thing(i: int)
    requires
        0 <= i < key_table().len(),
    ensures
        key_table().len() == 4,
        key_table()[i].0 == "tab"@ <==> key_table()[i].1 == Action::Focus(Field::Secret),
        key_table()[i].0 == "enter"@ <==> key_table()[i].1 == Action::Submit,
        key_table()[i].0 == "esc"@ <==> key_table()[i].1 == Action::Reset,
        key_table()[i].0 == "backspace"@ <==> key_table()[i].1 == Action::Backspace,
        exists|k: int| 0 <= k < 4 && (#[trigger] key_table()[k]).1 == Action::Submit,
        exists|k: int| 0 <= k < 4 && (#[trigger] key_table()[k]).1 == Action::Reset,
        exists|k: int| 0 <= k < 4 && (#[trigger] key_table()[k]).1 == Action::Backspace,
        exists|k: int| 0 <= k < 4 && (#[trigger] key_table()[k]).1 == Action::Focus(Field::Secret),
{
    reveal_strlit("tab");
    reveal_strlit("enter");
    reveal_strlit("esc");
    reveal_strlit("backspace");
    assert("tab"@.len() == 3 && "enter"@.len() == 5 && "esc"@.len() == 3 && "backspace"@.len() == 9);
    assert("tab"@[0] == 't' && "esc"@[0] == 'e');
    let t = key_table();
    assert(t[0].1 == Action::Focus(Field::Secret));
    assert(t[1].1 == Action::Submit);
    assert(t[2].1 == Action::Reset);
    assert(t[3].1 == Action::Backspace);
}

} // verus!
