//! The menu bar and its windows, as a state machine.
//!
//! The widgets are drawn elsewhere. What the user does with them comes in as
//! a `MenuEvent`; what the editor is to do about it goes out as a
//! `MainMenuCommand`, which `check` hands over once.

use vstd::prelude::*;

verus! {

/// The window that the menu shows.
#[derive(Clone, Copy, Debug, PartialEq, Eq, Structural)]
pub enum WindowVisible {
    /// No window.
    Hidden,
    New,
    Load,
    Save,
    AddDoodad,
    ChangeSpritesheet,
}

/// What the menu asks the editor to do.
#[derive(Clone, Debug, PartialEq, Eq)]
pub enum MainMenuCommand {
    /// Nothing to do.
    Nothing,
    Exit,
    New,
    ClearDoodads,
    Load(String),
    Save(String),
    AddDoodad(String),
    ChangeSpritesheet(String, u8),
}

/// A command as the contracts see it.
pub enum CommandView {
    Nothing,
    Exit,
    New,
    ClearDoodads,
    Load(Seq<char>),
    Save(Seq<char>),
    AddDoodad(Seq<char>),
    ChangeSpritesheet(Seq<char>, u8),
}

impl View for MainMenuCommand {
    type V = CommandView;

    open spec fn view(&self) -> CommandView {
        match self {
            MainMenuCommand::Nothing => CommandView::Nothing,
            MainMenuCommand::Exit => CommandView::Exit,
            MainMenuCommand::New => CommandView::New,
            MainMenuCommand::ClearDoodads => CommandView::ClearDoodads,
            MainMenuCommand::Load(name) => CommandView::Load(name@),
            MainMenuCommand::Save(name) => CommandView::Save(name@),
            MainMenuCommand::AddDoodad(name) => CommandView::AddDoodad(name@),
            MainMenuCommand::ChangeSpritesheet(name, frames) => CommandView::ChangeSpritesheet(
                name@,
                *frames,
            ),
        }
    }
}

/// What the user did with the menu.
#[derive(Clone, Debug, PartialEq, Eq)]
pub enum MenuEvent {
    /// A menu item that opens a window, with the names in the directory that
    /// the window lists, or no names for a window that lists none: see
    /// `listed_directory`.
    Open(WindowVisible, Vec<String>),
    /// The menu item that clears the doodads.
    ClearDoodads,
    /// The menu item that ends the program.
    Exit,
    /// Entry `i` of the list in the open window.
    Select(usize),
    /// The text field of the window that saves, with what it holds now.
    Text(String),
    /// The number field of the window that changes the sheet, with what it
    /// holds now.
    Frames(i32),
    /// The button of the open window.
    Confirm,
}

/// An event as the contracts see it.
pub enum EventView {
    Open(WindowVisible, Seq<Seq<char>>),
    ClearDoodads,
    Exit,
    Select(usize),
    Text(Seq<char>),
    Frames(i32),
    Confirm,
}

impl View for MenuEvent {
    type V = EventView;

    open spec fn view(&self) -> EventView {
        match self {
            MenuEvent::Open(window, listing) => EventView::Open(*window, listing.deep_view()),
            MenuEvent::ClearDoodads => EventView::ClearDoodads,
            MenuEvent::Exit => EventView::Exit,
            MenuEvent::Select(i) => EventView::Select(*i),
            MenuEvent::Text(text) => EventView::Text(text@),
            MenuEvent::Frames(frames) => EventView::Frames(*frames),
            MenuEvent::Confirm => EventView::Confirm,
        }
    }
}

/// Whether `a` comes before `b` or is `b`, in the order of a dictionary that
/// goes by the numbers of the characters.
pub open spec fn lex_le(a: Seq<char>, b: Seq<char>) -> bool
    decreases a.len(),
{
    if a.len() == 0 {
        true
    } else if b.len() == 0 {
        false
    } else if a[0] != b[0] {
        (a[0] as int) < (b[0] as int)
    } else {
        lex_le(a.skip(1), b.skip(1))
    }
}

/// Whether each name comes before the next or equals it.
pub open spec fn sorted(names: Seq<Seq<char>>) -> bool {
    forall|i: int, j: int| 0 <= i <= j < names.len() ==> lex_le(names[i], names[j])
}

/// Whether `sorted_names` holds the names of `names`, each as often, in order.
pub open spec fn is_sorting_of(sorted_names: Seq<Seq<char>>, names: Seq<Seq<char>>) -> bool {
    sorted(sorted_names) && sorted_names.to_multiset() == names.to_multiset()
}

/// Sorts the names with `sort` of the standard library. Believed of it, as its
/// documentation says: the names that come out are the names that went in,
/// each as often, and they stand in ascending order, which for strings is the
/// order of their bytes and so that of the numbers of their characters.
#[verifier::external_body]
fn sort_names(names: &mut Vec<String>)
    ensures
        is_sorting_of(final(names).deep_view(), old(names).deep_view()),
{
    names.sort();
}

/// The directory whose names `window` lists, if it lists any.
pub fn listed_directory(window: WindowVisible) -> (path: Option<&'static str>)
    ensures
        path is Some <==> (window == WindowVisible::AddDoodad || window
            == WindowVisible::ChangeSpritesheet || window == WindowVisible::Load || window
            == WindowVisible::Save),
        window == WindowVisible::AddDoodad ==> path->0@ == "./resources/doodads"@,
        window == WindowVisible::ChangeSpritesheet ==> path->0@ == "./resources/spritesheets"@,
        window == WindowVisible::Load || window == WindowVisible::Save ==> path->0@
            == "./resources/definitions"@,
{
    match window {
        WindowVisible::AddDoodad => Some("./resources/doodads"),
        WindowVisible::ChangeSpritesheet => Some("./resources/spritesheets"),
        WindowVisible::Load | WindowVisible::Save => Some("./resources/definitions"),
        _ => None,
    }
}

/// The menu as the contracts see it.
pub struct MenuView {
    pub window: WindowVisible,
    pub command: CommandView,
    pub exit: bool,
    pub text_input: Seq<char>,
    pub frames_input: i32,
    pub selected: usize,
    pub list_directory: Seq<Seq<char>>,
}

impl MenuView {
    /// Whether the number of frames in the number field can be given to a
    /// sheet.
    pub open spec fn frames_ok(self) -> bool {
        0 < self.frames_input < 127
    }

    /// Whether an entry of the list is chosen.
    pub open spec fn chosen(self) -> bool {
        self.selected < self.list_directory.len()
    }

    /// The menu after its button was pressed. In the window that asks before a
    /// new scene the button gives the command. In a window with a list it
    /// gives the command for the chosen entry, if one is chosen; to change the
    /// sheet the number of frames must be one from 1 to 126 too. In the window
    /// that saves it gives the command for the name in the text field, if
    /// there is one. A button that gives a command closes the window.
    pub open spec fn confirmed(self) -> MenuView {
        match self.window {
            WindowVisible::Hidden => self,
            WindowVisible::New => MenuView {
                window: WindowVisible::Hidden,
                command: CommandView::New,
                ..self
            },
            WindowVisible::Load => if self.chosen() {
                MenuView {
                    window: WindowVisible::Hidden,
                    command: CommandView::Load(self.list_directory[self.selected as int]),
                    ..self
                }
            } else {
                self
            },
            WindowVisible::Save => if self.text_input.len() > 0 {
                MenuView {
                    window: WindowVisible::Hidden,
                    command: CommandView::Save(self.text_input),
                    ..self
                }
            } else {
                self
            },
            WindowVisible::AddDoodad => if self.chosen() {
                MenuView {
                    window: WindowVisible::Hidden,
                    command: CommandView::AddDoodad(self.list_directory[self.selected as int]),
                    ..self
                }
            } else {
                self
            },
            WindowVisible::ChangeSpritesheet => if self.frames_ok() && self.chosen() {
                MenuView {
                    window: WindowVisible::Hidden,
                    command: CommandView::ChangeSpritesheet(
                        self.list_directory[self.selected as int],
                        self.frames_input as u8,
                    ),
                    ..self
                }
            } else {
                self
            },
        }
    }

    /// The menu after entry `i` of its list was clicked: in the window that
    /// saves, the name goes into the text field; in the other windows with a
    /// list, the entry is the chosen one.
    pub open spec fn selected_entry(self, i: usize) -> MenuView {
        match self.window {
            WindowVisible::Load | WindowVisible::AddDoodad | WindowVisible::ChangeSpritesheet => {
                MenuView { selected: i, ..self }
            },
            WindowVisible::Save => if i < self.list_directory.len() {
                MenuView { text_input: self.list_directory[i as int], ..self }
            } else {
                self
            },
            _ => self,
        }
    }
}

/// The state of the menu bar and of the window that it shows.
pub struct MainMenuInterface {
    window: WindowVisible,
    command: MainMenuCommand,
    pub exit: bool,
    text_input: String,
    frames_input: i32,
    selected: usize,
    list_directory: Vec<String>,
}

impl View for MainMenuInterface {
    type V = MenuView;

    closed spec fn view(&self) -> MenuView {
        MenuView {
            window: self.window,
            command: self.command@,
            exit: self.exit,
            text_input: self.text_input@,
            frames_input: self.frames_input,
            selected: self.selected,
            list_directory: self.list_directory.deep_view(),
        }
    }
}

impl MainMenuInterface {
    /// A menu that shows no window and has no command to give.
    pub fn new() -> (menu: MainMenuInterface)
        ensures
            menu@ == (MenuView {
                window: WindowVisible::Hidden,
                command: CommandView::Nothing,
                exit: false,
                text_input: Seq::empty(),
                frames_input: 0,
                selected: 0,
                list_directory: Seq::empty(),
            }),
    {
        let menu = MainMenuInterface {
            window: WindowVisible::Hidden,
            command: MainMenuCommand::Nothing,
            exit: false,
            text_input: String::new(),
            frames_input: 0,
            selected: 0,
            list_directory: Vec::new(),
        };
        assert(menu@.list_directory =~= Seq::<Seq<char>>::empty());
        menu
    }

    /// Empties the fields of the window and puts the given names, sorted, in
    /// the place of the list, if the window that is shown lists a directory.
    pub fn reset(&mut self, listing: Vec<String>)
        ensures
            final(self)@.window == old(self)@.window,
            final(self)@.command == old(self)@.command,
            final(self)@.exit == old(self)@.exit,
            final(self)@.text_input == Seq::<char>::empty(),
            final(self)@.frames_input == 0,
            final(self)@.selected == 0,
            match old(self)@.window {
                WindowVisible::Hidden | WindowVisible::New => final(self)@.list_directory == old(
                    self,
                )@.list_directory,
                _ => is_sorting_of(final(self)@.list_directory, listing.deep_view()),
            },
    {
        self.text_input = String::new();
        self.frames_input = 0;
        self.selected = 0;
        match self.window {
            WindowVisible::Hidden | WindowVisible::New => {},
            _ => {
                let mut names = listing;
                sort_names(&mut names);
                self.list_directory = names;
            },
        }
    }

    /// Hands over the command that is waiting, and waits for the next.
    pub fn check(&mut self) -> (command: MainMenuCommand)
        ensures
            command@ == old(self)@.command,
            final(self)@ == (MenuView { command: CommandView::Nothing, ..old(self)@ }),
    {
        let mut temp = MainMenuCommand::Nothing;
        std::mem::swap(&mut temp, &mut self.command);
        temp
    }

    /// Whether the program is to end. The field `exit` is open to writing;
    /// this reads it as the contracts see it.
    pub fn get_exit(&self) -> (exit: bool)
        ensures
            exit == self@.exit,
    {
        self.exit
    }

    /// Says whether the program is to end.
    pub fn set_exit(&mut self, exit: bool)
        ensures
            final(self)@ == (MenuView { exit, ..old(self)@ }),
    {
        self.exit = exit;
    }

    /// The window that is shown.
    pub fn window(&self) -> (window: WindowVisible)
        ensures
            window == self@.window,
    {
        self.window
    }

    /// The names in the list of the window.
    pub fn list_directory(&self) -> (names: &Vec<String>)
        ensures
            names.deep_view() == self@.list_directory,
    {
        &self.list_directory
    }

    /// The entry of the list that is chosen.
    pub fn selected(&self) -> (selected: usize)
        ensures
            selected == self@.selected,
    {
        self.selected
    }

    /// What the text field holds.
    pub fn text_input(&self) -> (text: &String)
        ensures
            text@ == self@.text_input,
    {
        &self.text_input
    }

    /// What the number field holds.
    pub fn frames_input(&self) -> (frames: i32)
        ensures
            frames == self@.frames_input,
    {
        self.frames_input
    }

    fn chosen_name(&self) -> (name: String)
        requires
            self@.chosen(),
        ensures
            name@ == self@.list_directory[self@.selected as int],
    {
        assert(self@.list_directory[self@.selected as int] == self.list_directory[self.selected as int]@);
        self.list_directory[self.selected].clone()
    }

    fn confirm(&mut self)
        ensures
            final(self)@ == old(self)@.confirmed(),
    {
        match self.window {
            WindowVisible::Hidden => {},
            WindowVisible::New => {
                self.window = WindowVisible::Hidden;
                self.command = MainMenuCommand::New;
            },
            WindowVisible::Load => {
                if self.selected < self.list_directory.len() {
                    let name = self.chosen_name();
                    self.window = WindowVisible::Hidden;
                    self.command = MainMenuCommand::Load(name);
                }
            },
            WindowVisible::Save => {
                if !self.text_input.as_str().is_empty() {
                    self.window = WindowVisible::Hidden;
                    self.command = MainMenuCommand::Save(self.text_input.clone());
                }
            },
            WindowVisible::AddDoodad => {
                if self.selected < self.list_directory.len() {
                    let name = self.chosen_name();
                    self.window = WindowVisible::Hidden;
                    self.command = MainMenuCommand::AddDoodad(name);
                }
            },
            WindowVisible::ChangeSpritesheet => {
                if self.frames_input > 0 && self.frames_input < 127 && self.selected
                    < self.list_directory.len() {
                    let name = self.chosen_name();
                    self.window = WindowVisible::Hidden;
                    self.command = MainMenuCommand::ChangeSpritesheet(name, self.frames_input as u8);
                }
            },
        }
    }

    fn select(&mut self, i: usize)
        ensures
            final(self)@ == old(self)@.selected_entry(i),
    {
        match self.window {
            WindowVisible::Load | WindowVisible::AddDoodad | WindowVisible::ChangeSpritesheet => {
                self.selected = i;
            },
            WindowVisible::Save => {
                if i < self.list_directory.len() {
                    assert(self@.list_directory[i as int] == self.list_directory[i as int]@);
                    self.text_input = self.list_directory[i].clone();
                }
            },
            _ => {},
        }
    }

    /// Takes in what the user did.
    ///
    /// A menu item that opens a window shows that window, with empty fields
    /// and, for a window that lists a directory, the names given, sorted. The
    /// item that clears the doodads closes the window, empties the fields and
    /// gives the command; the item that ends the program gives the command. A
    /// click on an entry, the button, the text field and the number field act
    /// on the window that is shown: see `selected_entry` and `confirmed`.
    pub fn handle(&mut self, event: MenuEvent)
        ensures
            match event@ {
                EventView::Open(window, listing) => {
                    &&& final(self)@.window == window
                    &&& final(self)@.command == old(self)@.command
                    &&& final(self)@.exit == old(self)@.exit
                    &&& final(self)@.text_input == Seq::<char>::empty()
                    &&& final(self)@.frames_input == 0
                    &&& final(self)@.selected == 0
                    &&& match window {
                        WindowVisible::Hidden | WindowVisible::New => final(self)@.list_directory
                            == old(self)@.list_directory,
                        _ => is_sorting_of(final(self)@.list_directory, listing),
                    }
                },
                EventView::ClearDoodads => final(self)@ == (MenuView {
                    window: WindowVisible::Hidden,
                    command: CommandView::ClearDoodads,
                    text_input: Seq::empty(),
                    frames_input: 0,
                    selected: 0,
                    ..old(self)@
                }),
                EventView::Exit => final(self)@ == (MenuView {
                    command: CommandView::Exit,
                    ..old(self)@
                }),
                EventView::Select(i) => final(self)@ == old(self)@.selected_entry(i),
                EventView::Text(text) => final(self)@ == (MenuView {
                    text_input: text,
                    ..old(self)@
                }),
                EventView::Frames(frames) => final(self)@ == (MenuView {
                    frames_input: frames,
                    ..old(self)@
                }),
                EventView::Confirm => final(self)@ == old(self)@.confirmed(),
            },
    {
        match event {
            MenuEvent::Open(window, listing) => {
                self.window = window;
                self.reset(listing);
            },
            MenuEvent::ClearDoodads => {
                self.window = WindowVisible::Hidden;
                self.command = MainMenuCommand::ClearDoodads;
                self.reset(Vec::new());
            },
            MenuEvent::Exit => {
                self.command = MainMenuCommand::Exit;
            },
            MenuEvent::Select(i) => {
                self.select(i);
            },
            MenuEvent::Text(text) => {
                self.text_input = text;
            },
            MenuEvent::Frames(frames) => {
                self.frames_input = frames;
            },
            MenuEvent::Confirm => {
                self.confirm();
            },
        }
    }
}

} // verus!
