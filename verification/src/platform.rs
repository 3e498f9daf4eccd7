//! What the service asks of the platform it runs on, and the answers of a
//! platform that offers none of the optional services.

use std::sync::mpsc::Receiver;
use vstd::prelude::*;

verus! {

/// `std::sync::mpsc::Receiver`, carried as an opaque value.
#[verifier::external_type_specification]
#[verifier::external_body]
#[verifier::reject_recursive_types(T)]
pub struct ExReceiver<T>(Receiver<T>);

/// What is playing.
#[derive(Debug, PartialEq)]
pub struct Media {
    pub title: String,
    pub artist: String,
}

/// What a media source knows about what is playing.
#[derive(Debug, Default, Clone)]
pub struct NowPlayingInfo {
    pub is_playing: Option<bool>,
    pub title: Option<String>,
    pub artist: Option<String>,
}

/// A press of one of the volume keys.
#[derive(Clone, Copy, Debug, PartialEq, Eq, Structural)]
pub enum VolumeKeySignal {
    Up,
    Down,
    Mute,
}

/// Which optional services a platform offers.
#[derive(Clone, Copy, Debug, PartialEq, Eq, Structural)]
pub struct PlatformCapabilities {
    /// What is playing can be asked.
    pub media: bool,
    /// How long the user has been idle can be asked.
    pub idle_timeout: bool,
    /// The service can be started at login.
    pub autostart: bool,
}

/// What is playing, from the title and the artist that a media source
/// reports. Without a title, or with an empty one, nothing is playing; a
/// missing artist is an empty one.
pub fn media_from_fields(title: Option<String>, artist: Option<String>) -> (r: Option<Media>)
    ensures
        match title {
            Some(t) => if t@.len() == 0 {
                r is None
            } else {
                r is Some && r->0.title == t && r->0.artist@ == (match artist {
                    Some(a) => a@,
                    None => Seq::<char>::empty(),
                })
            },
            None => r is None,
        },
{
    match title {
        Some(t) => {
            if t.as_str().is_empty() {
                None
            } else {
                let artist = match artist {
                    Some(a) => a,
                    None => String::new(),
                };
                Some(Media { title: t, artist })
            }
        },
        None => None,
    }
}

/// The services of a platform without support of its own: media only.
pub fn capabilities() -> (r: PlatformCapabilities)
    ensures
        r == (PlatformCapabilities { media: true, idle_timeout: false, autostart: false }),
{
    PlatformCapabilities { media: true, idle_timeout: false, autostart: false }
}

/// Asks for the service to be started at login, or not. A platform without
/// autostart ignores the wish.
pub fn set_autostart(_enabled: bool) {
}

/// Whether the service is started at login. Without autostart it never is.
pub fn get_autostart() -> (r: bool)
    ensures
        !r,
{
    false
}

/// For how many seconds the user has been idle. A platform that cannot tell
/// says zero, so the user never counts as idle.
pub fn get_idle_seconds() -> (r: usize)
    ensures
        r == 0,
{
    0
}

/// Starts listening for the volume keys. A platform without such keys has
/// nothing to listen to.
pub fn start_volume_key_listener() -> (r: Option<Receiver<VolumeKeySignal>>)
    ensures
        r is None,
{
    None
}

/// Whether the service may watch the keyboard, asking the user first where
/// `_prompt` is set. A platform without such a permission always allows it.
pub fn ensure_accessibility_permission(_prompt: bool) -> (r: bool)
    ensures
        r,
{
    true
}

} // verus!
