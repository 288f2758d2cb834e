//! Defaults for the application settings, and the rule by which stored
//! settings are used or replaced.

use vstd::prelude::*;

verus! {

/// A shortcut as the settings describe it.
#[derive(Debug)]
pub struct ShortcutBinding {
    pub id: String,
    pub name: String,
    pub description: String,
    pub default_binding: String,
    pub current_binding: String,
}

/// Model of a [`ShortcutBinding`].
pub struct ShortcutBindingView {
    pub id: Seq<char>,
    pub name: Seq<char>,
    pub description: Seq<char>,
    pub default_binding: Seq<char>,
    pub current_binding: Seq<char>,
}

impl View for ShortcutBinding {
    type V = ShortcutBindingView;

    open spec fn view(&self) -> ShortcutBindingView {
        ShortcutBindingView {
            id: self.id@,
            name: self.name@,
            description: self.description@,
            default_binding: self.default_binding@,
            current_binding: self.current_binding@,
        }
    }
}

impl Clone for ShortcutBinding {
    fn clone(&self) -> (copy: Self)
        ensures
            copy@ == self@,
    {
        ShortcutBinding {
            id: self.id.clone(),
            name: self.name.clone(),
            description: self.description.clone(),
            default_binding: self.default_binding.clone(),
            current_binding: self.current_binding.clone(),
        }
    }
}

/// The platforms that differ in their default shortcut.
#[derive(Clone, Copy, Debug, PartialEq, Eq, Structural)]
pub enum Platform {
    Windows,
    MacOs,
    Linux,
    Other,
}

/// The default shortcut of `platform`, as a specification.
pub open spec fn default_shortcut_of(platform: Platform) -> Seq<char> {
    match platform {
        Platform::Windows | Platform::Linux => "ctrl+space"@,
        Platform::MacOs | Platform::Other => "alt+space"@,
    }
}

/// The model selected when the settings name none: the empty name, which
/// stands for "no model yet".
pub fn default_model() -> (model: String)
    ensures
        model@ == Seq::<char>::empty(),
{
    String::new()
}

/// Whether the microphone stays open between recordings when the settings do
/// not say: it does not.
pub fn default_always_on_microphone() -> (always_on: bool)
    ensures
        !always_on,
{
    false
}

/// Whether speech is translated to English when the settings do not say: it
/// is not.
pub fn default_translate_to_english() -> (translate: bool)
    ensures
        !translate,
{
    false
}

/// The shortcut that triggers transcription on `platform` until the user
/// picks another.
pub fn default_shortcut(platform: Platform) -> (shortcut: &'static str)
    ensures
        shortcut@ == default_shortcut_of(platform),
{
    match platform {
        Platform::Windows => "ctrl+space",
        Platform::MacOs => "alt+space",
        Platform::Linux => "ctrl+space",
        Platform::Other => "alt+space",
    }
}

/// The one binding of the default settings: transcription, bound to the
/// default shortcut of `platform`.
pub fn default_transcribe_binding(platform: Platform) -> (binding: ShortcutBinding)
    ensures
        binding@ == (ShortcutBindingView {
            id: "transcribe"@,
            name: "Transcribe"@,
            description: "Converts your speech into text."@,
            default_binding: default_shortcut_of(platform),
            current_binding: default_shortcut_of(platform),
        }),
{
    let shortcut = default_shortcut(platform);
    ShortcutBinding {
        id: "transcribe".to_owned(),
        name: "Transcribe".to_owned(),
        description: "Converts your speech into text.".to_owned(),
        default_binding: shortcut.to_owned(),
        current_binding: shortcut.to_owned(),
    }
}

/// The application settings. The library stores the feedback volume without
/// reading it, so its type is the caller's.
#[derive(Debug)]
pub struct AppSettings<V> {
    /// The bindings, in the order in which they were added.
    pub bindings: Vec<ShortcutBinding>,
    pub push_to_talk: bool,
    pub audio_feedback: bool,
    pub audio_feedback_volume: V,
    pub selected_model: String,
    pub always_on_microphone: bool,
    pub translate_to_english: bool,
}

/// Model of [`AppSettings`].
pub struct AppSettingsView<V> {
    pub bindings: Seq<ShortcutBindingView>,
    pub push_to_talk: bool,
    pub audio_feedback: bool,
    pub audio_feedback_volume: V,
    pub selected_model: Seq<char>,
    pub always_on_microphone: bool,
    pub translate_to_english: bool,
}

impl<V> View for AppSettings<V> {
    type V = AppSettingsView<V>;

    open spec fn view(&self) -> AppSettingsView<V> {
        AppSettingsView {
            bindings: Seq::new(self.bindings@.len(), |i: int| self.bindings@[i]@),
            push_to_talk: self.push_to_talk,
            audio_feedback: self.audio_feedback,
            audio_feedback_volume: self.audio_feedback_volume,
            selected_model: self.selected_model@,
            always_on_microphone: self.always_on_microphone,
            translate_to_english: self.translate_to_english,
        }
    }
}

/// The position of the first of `bindings` whose id is `id`, if there is one.
pub open spec fn position_of(bindings: Seq<ShortcutBindingView>, id: Seq<char>) -> Option<int>
    decreases bindings.len(),
{
    if bindings.len() == 0 {
        None
    } else if bindings[0].id == id {
        Some(0)
    } else {
        match position_of(bindings.drop_first(), id) {
            Some(i) => Some(i + 1),
            None => None,
        }
    }
}

/// `position_of` finds a binding with the id it was asked for, and none
/// stands before it; it finds none only where there is none.
pub proof fn lemma_position_of(bindings: Seq<ShortcutBindingView>, id: Seq<char>)
    ensures
        match position_of(bindings, id) {
            Some(i) => {
                &&& 0 <= i < bindings.len()
                &&& bindings[i].id == id
                &&& forall|j: int| 0 <= j < i ==> (#[trigger] bindings[j]).id != id
            },
            None => forall|j: int| 0 <= j < bindings.len() ==> (#[trigger] bindings[j]).id != id,
        },
    decreases bindings.len(),
{
    if bindings.len() > 0 && bindings[0].id != id {
        let rest = bindings.drop_first();
        lemma_position_of(rest, id);
        match position_of(rest, id) {
            Some(i) => {
                assert forall|j: int| 0 <= j < i + 1 implies (#[trigger] bindings[j]).id != id by {
                    if j > 0 {
                        assert(rest[j - 1].id != id);
                    }
                }
            },
            None => {
                assert forall|j: int| 0 <= j < bindings.len() implies (#[trigger] bindings[j]).id
                    != id by {
                    if j > 0 {
                        assert(rest[j - 1].id != id);
                    }
                }
            },
        }
    }
}

/// The settings of a fresh installation on `platform`: push-to-talk with the
/// one transcription binding, no audio feedback, no model selected, the
/// microphone closed between recordings, no translation. The feedback volume
/// is the caller's.
pub fn get_default_settings<V>(platform: Platform, audio_feedback_volume: V) -> (settings:
    AppSettings<V>)
    ensures
        settings@ == (AppSettingsView {
            bindings: seq![
                ShortcutBindingView {
                    id: "transcribe"@,
                    name: "Transcribe"@,
                    description: "Converts your speech into text."@,
                    default_binding: default_shortcut_of(platform),
                    current_binding: default_shortcut_of(platform),
                },
            ],
            push_to_talk: true,
            audio_feedback: false,
            audio_feedback_volume,
            selected_model: Seq::<char>::empty(),
            always_on_microphone: false,
            translate_to_english: false,
        }),
{
    let mut bindings: Vec<ShortcutBinding> = Vec::new();
    bindings.push(default_transcribe_binding(platform));
    let settings = AppSettings {
        bindings,
        push_to_talk: true,
        audio_feedback: false,
        audio_feedback_volume,
        selected_model: default_model(),
        always_on_microphone: default_always_on_microphone(),
        translate_to_english: default_translate_to_english(),
    };
    assert(settings@.bindings =~= seq![settings.bindings@[0]@]);
    settings
}

/// The bindings of `settings`.
pub fn get_bindings<V>(settings: AppSettings<V>) -> (bindings: Vec<ShortcutBinding>)
    ensures
        bindings == settings.bindings,
{
    settings.bindings
}

/// A copy of the first binding of `settings` whose id is `id`, or `None`
/// where no binding has that id.
pub fn get_stored_binding<V>(settings: &AppSettings<V>, id: &str) -> (binding: Option<
    ShortcutBinding,
>)
    ensures
        match position_of(settings@.bindings, id@) {
            Some(i) => binding is Some && binding->0@ == settings@.bindings[i],
            None => binding is None,
        },
{
    let wanted = id.to_owned();
    let mut i: usize = 0;
    while i < settings.bindings.len()
        invariant
            i <= settings.bindings@.len(),
            wanted@ == id@,
            forall|j: int| 0 <= j < i ==> (#[trigger] settings.bindings@[j]).id@ != id@,
        decreases settings.bindings@.len() - i,
    {
        if settings.bindings[i].id == wanted {
            proof {
                lemma_position_of(settings@.bindings, id@);
                assert(settings@.bindings[i as int].id == id@);
                assert forall|j: int| 0 <= j < i implies (#[trigger] settings@.bindings[j]).id
                    != id@ by {
                    assert(settings.bindings@[j].id@ != id@);
                }
            }
            return Some(settings.bindings[i].clone());
        }
        i += 1;
    }
    proof {
        lemma_position_of(settings@.bindings, id@);
        if position_of(settings@.bindings, id@) is Some {
            let k = position_of(settings@.bindings, id@)->0;
            assert(settings.bindings@[k].id@ != id@);
        }
    }
    None
}

/// What the settings store held under the settings key.
pub enum StoredSettings<T> {
    /// Nothing was stored.
    Missing,
    /// Something was stored that does not read as settings.
    Unreadable,
    /// Settings were stored and read.
    Found(T),
}

/// Settings to run with, and whether they have to be written to the store.
pub struct LoadedSettings<T> {
    pub settings: T,
    pub write_back: bool,
}

/// At startup stored settings are used as they are; where none are stored, or
/// what is stored cannot be read, the defaults are used and written to the
/// store.
pub fn load_or_create_app_settings<T>(stored: StoredSettings<T>, defaults: T) -> (loaded:
    LoadedSettings<T>)
    ensures
        loaded.settings == (match stored {
            StoredSettings::Found(settings) => settings,
            _ => defaults,
        }),
        loaded.write_back == !(stored is Found),
{
    match stored {
        StoredSettings::Found(settings) => LoadedSettings { settings, write_back: false },
        _ => LoadedSettings { settings: defaults, write_back: true },
    }
}

/// Later reads use stored settings as they are and fall back to the defaults
/// without touching the store.
pub fn get_settings<T>(stored: StoredSettings<T>, defaults: T) -> (settings: T)
    ensures
        settings == (match stored {
            StoredSettings::Found(found) => found,
            _ => defaults,
        }),
{
    match stored {
        StoredSettings::Found(found) => found,
        _ => defaults,
    }
}

} // verus!
