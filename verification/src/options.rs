//! The command line.
use vstd::prelude::*;

use crate::text;

verus! {

/// What a run of the exporter is asked to do.
#[derive(Debug, PartialEq, Eq)]
pub struct Options {
    pub apple_id: String,
    pub anisette_url: String,
    pub device_profile_path: String,
    pub output_dir: Option<String>,
    pub auth_cache_path: Option<String>,
    pub use_auth_cache: bool,
    pub clear_auth_cache: bool,
    pub keychain_state_path: Option<String>,
    pub clear_keychain_state: bool,
    pub delete_own_escrow_bottle: bool,
    pub skip_escrow_bottle_password: bool,
}

/// Options with their texts as sequences of characters.
#[verifier::ext_equal]
pub struct OptionsView {
    pub apple_id: Seq<char>,
    pub anisette_url: Seq<char>,
    pub device_profile_path: Seq<char>,
    pub output_dir: Option<Seq<char>>,
    pub auth_cache_path: Option<Seq<char>>,
    pub use_auth_cache: bool,
    pub clear_auth_cache: bool,
    pub keychain_state_path: Option<Seq<char>>,
    pub clear_keychain_state: bool,
    pub delete_own_escrow_bottle: bool,
    pub skip_escrow_bottle_password: bool,
}

impl View for Options {
    type V = OptionsView;

    open spec fn view(&self) -> OptionsView {
        OptionsView {
            apple_id: self.apple_id@,
            anisette_url: self.anisette_url@,
            device_profile_path: self.device_profile_path@,
            output_dir: text::text_view(self.output_dir),
            auth_cache_path: text::text_view(self.auth_cache_path),
            use_auth_cache: self.use_auth_cache,
            clear_auth_cache: self.clear_auth_cache,
            keychain_state_path: text::text_view(self.keychain_state_path),
            clear_keychain_state: self.clear_keychain_state,
            delete_own_escrow_bottle: self.delete_own_escrow_bottle,
            skip_escrow_bottle_password: self.skip_escrow_bottle_password,
        }
    }
}

/// The options of a run without arguments.
pub open spec fn default_options() -> OptionsView {
    OptionsView {
        apple_id: Seq::empty(),
        anisette_url: "https://ani.sidestore.io"@,
        device_profile_path: ".local/device-profile.toml"@,
        output_dir: None,
        auth_cache_path: None,
        use_auth_cache: true,
        clear_auth_cache: false,
        keychain_state_path: None,
        clear_keychain_state: false,
        delete_own_escrow_bottle: false,
        skip_escrow_bottle_password: false,
    }
}

/// What the arguments come to.
#[derive(Debug, PartialEq, Eq)]
pub enum CommandLine<O, T> {
    /// Run with these options.
    Run(O),
    /// Show how the program is used.
    Help,
    /// Complain about this argument.
    Unknown(T),
    /// This flag is the last argument, without the value that belongs to it. There is no run for
    /// such a command line.
    MissingValue(T),
}

/// What a flag without a value does to the options; nothing comes back for any other argument.
pub open spec fn with_switch(options: OptionsView, flag: Seq<char>) -> Option<OptionsView> {
    if flag == "--no-auth-cache"@ {
        Some(OptionsView { use_auth_cache: false, ..options })
    } else if flag == "--clear-auth-cache"@ {
        Some(OptionsView { clear_auth_cache: true, ..options })
    } else if flag == "--clear-keychain-state"@ {
        Some(OptionsView { clear_keychain_state: true, ..options })
    } else if flag == "--delete-own-escrow-bottle"@ {
        Some(OptionsView { delete_own_escrow_bottle: true, ..options })
    } else if flag == "--delete-own-escrow-bottle-without-password"@ {
        Some(
            OptionsView {
                delete_own_escrow_bottle: true,
                skip_escrow_bottle_password: true,
                ..options
            },
        )
    } else {
        None
    }
}

/// Whether a value belongs to the flag.
pub open spec fn takes_value(flag: Seq<char>) -> bool {
    ||| flag == "--apple-id"@
    ||| flag == "--anisette-url"@
    ||| flag == "--device-profile"@
    ||| flag == "--output-dir"@
    ||| flag == "--auth-cache"@
    ||| flag == "--keychain-state"@
}

/// What a flag with a value does to the options.
pub open spec fn with_value(options: OptionsView, flag: Seq<char>, value: Seq<char>) -> OptionsView {
    if flag == "--apple-id"@ {
        OptionsView { apple_id: value, ..options }
    } else if flag == "--anisette-url"@ {
        OptionsView { anisette_url: value, ..options }
    } else if flag == "--device-profile"@ {
        OptionsView { device_profile_path: value, ..options }
    } else if flag == "--output-dir"@ {
        OptionsView { output_dir: Some(value), ..options }
    } else if flag == "--auth-cache"@ {
        OptionsView { auth_cache_path: Some(value), ..options }
    } else {
        OptionsView { keychain_state_path: Some(value), ..options }
    }
}

/// What the arguments from `i` on come to, on top of these options. A later flag overrides an
/// earlier one.
pub open spec fn parsed_from(
    arguments: Seq<Seq<char>>,
    i: int,
    options: OptionsView,
) -> CommandLine<OptionsView, Seq<char>>
    decreases arguments.len() - i,
{
    if i < 0 || i >= arguments.len() {
        CommandLine::Run(options)
    } else {
        let flag = arguments[i];
        if takes_value(flag) {
            if i + 1 < arguments.len() {
                parsed_from(arguments, i + 2, with_value(options, flag, arguments[i + 1]))
            } else {
                CommandLine::MissingValue(flag)
            }
        } else if flag == "--help"@ || flag == "-h"@ {
            CommandLine::Help
        } else {
            match with_switch(options, flag) {
                Some(changed) => parsed_from(arguments, i + 1, changed),
                None => CommandLine::Unknown(flag),
            }
        }
    }
}

/// What the arguments come to; the first of them is the name of the program.
pub open spec fn parsed_arguments(arguments: Seq<Seq<char>>) -> CommandLine<
    OptionsView,
    Seq<char>,
> {
    parsed_from(arguments, 1, default_options())
}

/// What a command line says, with its texts as sequences of characters.
pub open spec fn command_view(line: CommandLine<Options, String>) -> CommandLine<
    OptionsView,
    Seq<char>,
> {
    match line {
        CommandLine::Run(options) => CommandLine::Run(options@),
        CommandLine::Help => CommandLine::Help,
        CommandLine::Unknown(argument) => CommandLine::Unknown(argument@),
        CommandLine::MissingValue(flag) => CommandLine::MissingValue(flag@),
    }
}

impl Default for Options {
    fn default() -> (options: Self)
        ensures
            options@ == default_options(),
    {
        Options {
            apple_id: String::new(),
            anisette_url: "https://ani.sidestore.io".to_owned(),
            device_profile_path: ".local/device-profile.toml".to_owned(),
            output_dir: None,
            auth_cache_path: None,
            use_auth_cache: true,
            clear_auth_cache: false,
            keychain_state_path: None,
            clear_keychain_state: false,
            delete_own_escrow_bottle: false,
            skip_escrow_bottle_password: false,
        }
    }
}

fn flag_takes_value(flag: &str) -> (yes: bool)
    ensures
        yes == takes_value(flag@),
{
    text::same_text(flag, "--apple-id") || text::same_text(flag, "--anisette-url")
        || text::same_text(flag, "--device-profile") || text::same_text(flag, "--output-dir")
        || text::same_text(flag, "--auth-cache") || text::same_text(flag, "--keychain-state")
}

impl Options {
    fn set_value(&mut self, flag: &str, value: String)
        requires
            takes_value(flag@),
        ensures
            final(self)@ == with_value(old(self)@, flag@, value@),
    {
        if text::same_text(flag, "--apple-id") {
            self.apple_id = value;
        } else if text::same_text(flag, "--anisette-url") {
            self.anisette_url = value;
        } else if text::same_text(flag, "--device-profile") {
            self.device_profile_path = value;
        } else if text::same_text(flag, "--output-dir") {
            self.output_dir = Some(value);
        } else if text::same_text(flag, "--auth-cache") {
            self.auth_cache_path = Some(value);
        } else {
            self.keychain_state_path = Some(value);
        }
    }

    fn set_switch(&mut self, flag: &str) -> (known: bool)
        ensures
            match with_switch(old(self)@, flag@) {
                Some(changed) => known && final(self)@ == changed,
                None => !known && final(self)@ == old(self)@,
            },
    {
        if text::same_text(flag, "--no-auth-cache") {
            self.use_auth_cache = false;
        } else if text::same_text(flag, "--clear-auth-cache") {
            self.clear_auth_cache = true;
        } else if text::same_text(flag, "--clear-keychain-state") {
            self.clear_keychain_state = true;
        } else if text::same_text(flag, "--delete-own-escrow-bottle") {
            self.delete_own_escrow_bottle = true;
        } else if text::same_text(flag, "--delete-own-escrow-bottle-without-password") {
            self.delete_own_escrow_bottle = true;
            self.skip_escrow_bottle_password = true;
        } else {
            return false;
        }
        true
    }

    /// Reads the command line; the first argument is the name of the program.
    pub fn parse(arguments: &Vec<String>) -> (line: CommandLine<Options, String>)
        ensures
            command_view(line) == parsed_arguments(text::texts(arguments@)),
    {
        let mut options = Options::default();
        let mut i: usize = 1;
        let ghost all = text::texts(arguments@);
        while i < arguments.len()
            invariant
                all == text::texts(arguments@),
                1 <= i,
                parsed_arguments(all) == parsed_from(all, i as int, options@),
            decreases arguments@.len() - i,
        {
            proof {
                assert(all[i as int] == arguments@[i as int]@);
            }
            let flag = arguments[i].as_str();
            if flag_takes_value(flag) {
                if i + 1 < arguments.len() {
                    proof {
                        assert(all[i + 1] == arguments@[i + 1]@);
                    }
                    options.set_value(flag, arguments[i + 1].clone());
                    i += 2;
                } else {
                    return CommandLine::MissingValue(flag.to_owned());
                }
            } else if text::same_text(flag, "--help") || text::same_text(flag, "-h") {
                return CommandLine::Help;
            } else if options.set_switch(flag) {
                i += 1;
            } else {
                return CommandLine::Unknown(flag.to_owned());
            }
        }
        CommandLine::Run(options)
    }
}

/// Where something is kept: at a path that was given, or beside the device profile, under a name.
#[derive(Debug, PartialEq, Eq)]
pub enum Place<T> {
    Given(T),
    BesideProfile(T),
}

/// A place with its text as a sequence of characters.
pub open spec fn place_view(place: Place<String>) -> Place<Seq<char>> {
    match place {
        Place::Given(path) => Place::Given(path@),
        Place::BesideProfile(name) => Place::BesideProfile(name@),
    }
}

/// The path that was given, or else the place of this name beside the device profile.
pub open spec fn place_of(given: Option<Seq<char>>, name: Seq<char>) -> Place<Seq<char>> {
    match given {
        Some(path) => Place::Given(path),
        None => Place::BesideProfile(name),
    }
}

/// Where a run keeps what it reads and writes.
#[derive(Debug, PartialEq, Eq)]
pub struct Workspace {
    pub output_dir: Place<String>,
    pub auth_cache: Place<String>,
    pub keychain_state: Place<String>,
    pub keystore: Place<String>,
    pub anisette_state: Place<String>,
}

fn choose_place(given: &Option<String>, name: &str) -> (place: Place<String>)
    ensures
        place_view(place) == place_of(text::text_view(*given), name@),
{
    match given {
        Some(path) => Place::Given(path.clone()),
        None => Place::BesideProfile(name.to_owned()),
    }
}

impl Options {
    /// Where a run with these options keeps what it reads and writes: beside the device profile,
    /// unless another path was given.
    pub fn workspace(&self) -> (workspace: Workspace)
        ensures
            place_view(workspace.output_dir) == place_of(self@.output_dir, "keys"@),
            place_view(workspace.auth_cache) == place_of(self@.auth_cache_path, "auth_cache.plist"@),
            place_view(workspace.keychain_state) == place_of(
                self@.keychain_state_path,
                "keychain_state.plist"@,
            ),
            place_view(workspace.keystore) == Place::BesideProfile("keystore.plist"@),
            place_view(workspace.anisette_state) == Place::BesideProfile("anisette_state"@),
    {
        Workspace {
            output_dir: choose_place(&self.output_dir, "keys"),
            auth_cache: choose_place(&self.auth_cache_path, "auth_cache.plist"),
            keychain_state: choose_place(&self.keychain_state_path, "keychain_state.plist"),
            keystore: Place::BesideProfile("keystore.plist".to_owned()),
            anisette_state: Place::BesideProfile("anisette_state".to_owned()),
        }
    }
}

/// The password of a bottle goes unasked only where a bottle is to be deleted.
pub proof fn law_password_is_skipped_only_for_deletion(arguments: Seq<Seq<char>>)
    requires
        parsed_arguments(arguments) is Run,
    ensures
        parsed_arguments(arguments)->Run_0.skip_escrow_bottle_password ==> parsed_arguments(
            arguments,
        )->Run_0.delete_own_escrow_bottle,
{
    lemma_skip_implies_delete(arguments, 1, default_options());
}

proof fn lemma_skip_implies_delete(arguments: Seq<Seq<char>>, i: int, options: OptionsView)
    requires
        options.skip_escrow_bottle_password ==> options.delete_own_escrow_bottle,
    ensures
        parsed_from(arguments, i, options) matches CommandLine::Run(o) ==> (
        o.skip_escrow_bottle_password ==> o.delete_own_escrow_bottle),
    decreases arguments.len() - i,
{
    if 0 <= i < arguments.len() {
        let flag = arguments[i];
        if takes_value(flag) {
            if i + 1 < arguments.len() {
                lemma_skip_implies_delete(
                    arguments,
                    i + 2,
                    with_value(options, flag, arguments[i + 1]),
                );
            }
        } else {
            match with_switch(options, flag) {
                Some(changed) => {
                    lemma_skip_implies_delete(arguments, i + 1, changed);
                },
                None => {},
            }
        }
    }
}

/// Options are seen as they are, each by itself.
pub proof fn law_options_are_seen_whole(options: Options, words: String)
    ensures
        options@.apple_id == options.apple_id@,
        options@.anisette_url == options.anisette_url@,
        options@.device_profile_path == options.device_profile_path@,
        options@.output_dir == match options.output_dir {
            Some(path) => Some(path@),
            None => None,
        },
        options@.auth_cache_path == match options.auth_cache_path {
            Some(path) => Some(path@),
            None => None,
        },
        options@.keychain_state_path == match options.keychain_state_path {
            Some(path) => Some(path@),
            None => None,
        },
        options@.use_auth_cache == options.use_auth_cache,
        options@.clear_auth_cache == options.clear_auth_cache,
        options@.clear_keychain_state == options.clear_keychain_state,
        options@.delete_own_escrow_bottle == options.delete_own_escrow_bottle,
        options@.skip_escrow_bottle_password == options.skip_escrow_bottle_password,
        command_view(CommandLine::Run(options)) == CommandLine::<OptionsView, Seq<char>>::Run(
            options@,
        ),
        command_view(CommandLine::Help) is Help,
        command_view(CommandLine::Unknown(words)) == CommandLine::<OptionsView, Seq<char>>::Unknown(
            words@,
        ),
        command_view(CommandLine::MissingValue(words)) == CommandLine::<
            OptionsView,
            Seq<char>,
        >::MissingValue(words@),
        place_view(Place::Given(words)) == Place::Given(words@),
        place_view(Place::BesideProfile(words)) == Place::BesideProfile(words@),
{
}

/// A run without arguments has the default server and profile, uses the cache, and neither clears
/// nor deletes anything. The name of the program plays no part.
pub proof fn law_no_arguments(program: Seq<char>)
    ensures
        parsed_arguments(seq![program]) matches CommandLine::Run(o) && {
            &&& o.apple_id.len() == 0
            &&& o.anisette_url == "https://ani.sidestore.io"@
            &&& o.device_profile_path == ".local/device-profile.toml"@
            &&& o.output_dir is None
            &&& o.auth_cache_path is None
            &&& o.keychain_state_path is None
            &&& o.use_auth_cache
            &&& !o.clear_auth_cache
            &&& !o.clear_keychain_state
            &&& !o.delete_own_escrow_bottle
            &&& !o.skip_escrow_bottle_password
        },
        parsed_arguments(Seq::empty()) == parsed_arguments(seq![program]),
{
}

proof fn lemma_flags_differ()
    ensures
        "--apple-id"@.len() == 10,
        "--anisette-url"@.len() == 14,
        "--device-profile"@.len() == 16,
        "--output-dir"@.len() == 12,
        "--auth-cache"@.len() == 12,
        "--output-dir"@[2] == 'o',
        "--auth-cache"@[2] == 'a',
        "--no-auth-cache"@.len() == 15,
        "--clear-auth-cache"@.len() == 18,
        "--keychain-state"@.len() == 16,
        "--device-profile"@[2] == 'd',
        "--keychain-state"@[2] == 'k',
        "--clear-keychain-state"@.len() == 22,
        "--delete-own-escrow-bottle"@.len() == 26,
        "--delete-own-escrow-bottle-without-password"@.len() == 43,
        "--help"@.len() == 6,
        "-h"@.len() == 2,
{
    reveal_strlit("--apple-id");
    reveal_strlit("--anisette-url");
    reveal_strlit("--device-profile");
    reveal_strlit("--output-dir");
    reveal_strlit("--auth-cache");
    reveal_strlit("--no-auth-cache");
    reveal_strlit("--clear-auth-cache");
    reveal_strlit("--keychain-state");
    reveal_strlit("--clear-keychain-state");
    reveal_strlit("--delete-own-escrow-bottle");
    reveal_strlit("--delete-own-escrow-bottle-without-password");
    reveal_strlit("--help");
    reveal_strlit("-h");
}

/// A flag with a value sets one option to that very value, whatever the value is, and the rest of
/// the line is read as before. Without a value it cannot stand.
pub proof fn law_flags_with_values(arguments: Seq<Seq<char>>, i: int, options: OptionsView)
    requires
        0 <= i < arguments.len(),
    ensures
        i + 1 < arguments.len() ==> {
            let value = arguments[i + 1];
            &&& arguments[i] == "--apple-id"@ ==> parsed_from(arguments, i, options) == parsed_from(
                arguments,
                i + 2,
                OptionsView { apple_id: value, ..options },
            )
            &&& arguments[i] == "--anisette-url"@ ==> parsed_from(arguments, i, options)
                == parsed_from(
                arguments,
                i + 2,
                OptionsView { anisette_url: value, ..options },
            )
            &&& arguments[i] == "--device-profile"@ ==> parsed_from(arguments, i, options)
                == parsed_from(
                arguments,
                i + 2,
                OptionsView { device_profile_path: value, ..options },
            )
            &&& arguments[i] == "--output-dir"@ ==> parsed_from(arguments, i, options)
                == parsed_from(
                arguments,
                i + 2,
                OptionsView { output_dir: Some(value), ..options },
            )
            &&& arguments[i] == "--auth-cache"@ ==> parsed_from(arguments, i, options)
                == parsed_from(
                arguments,
                i + 2,
                OptionsView { auth_cache_path: Some(value), ..options },
            )
            &&& arguments[i] == "--keychain-state"@ ==> parsed_from(arguments, i, options)
                == parsed_from(
                arguments,
                i + 2,
                OptionsView { keychain_state_path: Some(value), ..options },
            )
        },
        i + 1 == arguments.len() && (arguments[i] == "--apple-id"@ || arguments[i]
            == "--anisette-url"@ || arguments[i] == "--device-profile"@ || arguments[i]
            == "--output-dir"@ || arguments[i] == "--auth-cache"@ || arguments[i]
            == "--keychain-state"@) ==> parsed_from(arguments, i, options) == CommandLine::<
            OptionsView,
            Seq<char>,
        >::MissingValue(arguments[i]),
{
    lemma_flags_differ();
}

/// A flag without a value switches what it says, the one that deletes without a password two things,
/// and the rest of the line is read as before. Asking for help, and an argument that is none of the
/// flags, ends the reading.
pub proof fn law_flags_without_values(arguments: Seq<Seq<char>>, i: int, options: OptionsView)
    requires
        0 <= i < arguments.len(),
    ensures
        arguments[i] == "--no-auth-cache"@ ==> parsed_from(arguments, i, options) == parsed_from(
            arguments,
            i + 1,
            OptionsView { use_auth_cache: false, ..options },
        ),
        arguments[i] == "--clear-auth-cache"@ ==> parsed_from(arguments, i, options) == parsed_from(
            arguments,
            i + 1,
            OptionsView { clear_auth_cache: true, ..options },
        ),
        arguments[i] == "--clear-keychain-state"@ ==> parsed_from(arguments, i, options)
            == parsed_from(
            arguments,
            i + 1,
            OptionsView { clear_keychain_state: true, ..options },
        ),
        arguments[i] == "--delete-own-escrow-bottle"@ ==> parsed_from(arguments, i, options)
            == parsed_from(
            arguments,
            i + 1,
            OptionsView { delete_own_escrow_bottle: true, ..options },
        ),
        arguments[i] == "--delete-own-escrow-bottle-without-password"@ ==> parsed_from(
            arguments,
            i,
            options,
        ) == parsed_from(
            arguments,
            i + 1,
            OptionsView {
                delete_own_escrow_bottle: true,
                skip_escrow_bottle_password: true,
                ..options
            },
        ),
        arguments[i] == "--help"@ || arguments[i] == "-h"@ ==> parsed_from(
            arguments,
            i,
            options,
        ) is Help,
        !known_flag(arguments[i]) ==> parsed_from(arguments, i, options) == CommandLine::<
            OptionsView,
            Seq<char>,
        >::Unknown(arguments[i]),
{
    lemma_flags_differ();
}

/// The flags that there are.
pub open spec fn known_flag(argument: Seq<char>) -> bool {
    ||| argument == "--apple-id"@
    ||| argument == "--anisette-url"@
    ||| argument == "--device-profile"@
    ||| argument == "--output-dir"@
    ||| argument == "--auth-cache"@
    ||| argument == "--keychain-state"@
    ||| argument == "--no-auth-cache"@
    ||| argument == "--clear-auth-cache"@
    ||| argument == "--clear-keychain-state"@
    ||| argument == "--delete-own-escrow-bottle"@
    ||| argument == "--delete-own-escrow-bottle-without-password"@
    ||| argument == "--help"@
    ||| argument == "-h"@
}

/// Where the line ends, the options are those that it set.
pub proof fn law_end_of_the_line(arguments: Seq<Seq<char>>, options: OptionsView)
    ensures
        parsed_from(arguments, arguments.len() as int, options) == CommandLine::<
            OptionsView,
            Seq<char>,
        >::Run(options),
        arguments.len() > 0 ==> parsed_arguments(arguments) == parsed_from(
            arguments,
            1,
            OptionsView {
                apple_id: Seq::empty(),
                anisette_url: "https://ani.sidestore.io"@,
                device_profile_path: ".local/device-profile.toml"@,
                output_dir: None,
                auth_cache_path: None,
                use_auth_cache: true,
                clear_auth_cache: false,
                keychain_state_path: None,
                clear_keychain_state: false,
                delete_own_escrow_bottle: false,
                skip_escrow_bottle_password: false,
            },
        ),
{
}

/// A path that was given is where a thing is kept. Without one it is kept beside the profile.
pub proof fn law_places(path: Seq<char>, name: Seq<char>)
    ensures
        place_of(Some(path), name) == Place::Given(path),
        place_of(None, name) == Place::BesideProfile(name),
{
}

} // verus!
