use vstd::prelude::*;

verus! {

/// A desktop notification, as the notification service hands it to the
/// shell: empty optional fields are dropped, the timeout is resolved.
pub struct Notification {
    pub id: u32,
    pub app_name: Option<String>,
    pub app_icon: Option<String>,
    pub summary: String,
    pub body: Option<String>,
    pub timeout_secs: Option<u64>,
}

/// Build a notification from the raw bus arguments: empty strings become
/// absent fields; the requested expiry of `-1` means the default of ten
/// seconds, `0` means no timeout, anything else is taken as seconds.
pub fn notification_from_wire(
    id: u32,
    app_name: String,
    app_icon: String,
    summary: String,
    body: String,
    expire_timeout: i32,
) -> (n: Notification)
    requires
        expire_timeout >= -1,
    ensures
        n.id == id,
        n.app_name == (if app_name@.len() == 0 {
            None::<String>
        } else {
            Some(app_name)
        }),
        n.app_icon == (if app_icon@.len() == 0 {
            None::<String>
        } else {
            Some(app_icon)
        }),
        n.summary == summary,
        n.body == (if body@.len() == 0 {
            None::<String>
        } else {
            Some(body)
        }),
        n.timeout_secs == (if expire_timeout == -1 {
            Some(10u64)
        } else if expire_timeout == 0 {
            None::<u64>
        } else {
            Some(expire_timeout as u64)
        }),
{
    let timeout_secs = if expire_timeout == -1 {
        Some(10u64)
    } else if expire_timeout == 0 {
        None
    } else {
        Some(expire_timeout as u64)
    };
    Notification {
        id,
        app_name: if app_name.as_str().is_empty() {
            None
        } else {
            Some(app_name)
        },
        app_icon: if app_icon.as_str().is_empty() {
            None
        } else {
            Some(app_icon)
        },
        summary,
        body: if body.as_str().is_empty() {
            None
        } else {
            Some(body)
        },
        timeout_secs,
    }
}

/// The replacement target carried with a notification: zero means none.
pub fn replacement_of_wire(replace: u32) -> (r: Option<u32>)
    ensures
        r == (if replace == 0 {
            None::<u32>
        } else {
            Some(replace)
        }),
{
    if replace == 0 {
        None
    } else {
        Some(replace)
    }
}

/// A request from the notification service to the shell.
pub enum Request {
    NewNotification { notification: Notification, replace: Option<u32> },
    CloseNotification(u32),
}

/// A message from the power daemon.
#[derive(Clone, Copy, Debug, PartialEq, Eq, Structural)]
pub struct Message {}

/// A key chord: modifier mask plus key symbol.
#[derive(Clone, Copy, Debug, PartialEq, Eq, Structural)]
pub struct KeyPattern {
    pub modifiers: u32,
    pub keysym: u32,
}

/// A message from the scripting side to the compositor.
#[derive(Clone, Copy, Debug, PartialEq, Eq, Structural)]
pub enum LuaMessage {
    NewKeybind { key_pattern: KeyPattern },
    RemoveKeybind { key_pattern: KeyPattern },
}

/// A signal the compositor can emit towards the scripting side.
#[derive(Clone, Copy, Debug, PartialEq, Eq, Hash, Structural)]
pub enum Signal {
    Test,
}

impl Signal {
    /// The signal named by this string, if any.
    pub fn parse(s: &String) -> (r: Option<Signal>)
        ensures
            r == (if s@ == "test"@ {
                Some(Signal::Test)
            } else {
                None::<Signal>
            }),
    {
        let test: String = "test".to_owned();
        if *s == test {
            Some(Signal::Test)
        } else {
            None
        }
    }
}

impl core::str::FromStr for Signal {
    type Err = ();

    fn from_str(s: &str) -> Result<Signal, ()> {
        match Signal::parse(&s.to_owned()) {
            Some(sig) => Ok(sig),
            None => Err(()),
        }
    }
}

/// A message from the compositor to the scripting side.
#[derive(Clone, Copy, Debug, PartialEq, Eq, Structural)]
pub enum CompositorMessage {
    Signal(Signal),
    KeyPatternPressed { key_pattern: KeyPattern },
    ReloadConfig,
}

/// Battery technology reported by the power service.
#[derive(Clone, Copy, Debug, PartialEq, Eq, Structural)]
pub enum Technology {
    Unknown,
    LithiumIon,
    LithiumPolymer,
    LithiumIronPhosphate,
    LeadAcid,
    NickelCadmium,
    NickelMetalHydride,
}

/// Warning level reported by the power service.
#[derive(Clone, Copy, Debug, PartialEq, Eq, Structural)]
pub enum WarningLevel {
    Unknown,
    NoWarning,
    Discharging,
    Low,
    Critical,
    Action,
}

/// Kind of power device.
#[derive(Clone, Copy, Debug, PartialEq, Eq, Structural)]
pub enum Type {
    Unknown,
    LinePower,
    Battery,
    Ups,
    Monitor,
    Mouse,
    Keyboard,
    Pda,
    Phone,
    MediaPlayer,
    Tablet,
    Computer,
    GamingInput,
    Pen,
    Touchpad,
    Modem,
    Network,
    Headset,
    Speakers,
    Headphones,
    Video,
    OtherAudio,
    RemoteControl,
    Printer,
    Scanner,
    Camera,
    Wearable,
    Toy,
    BluetoothGeneric,
}

/// State of a network device.
#[derive(Clone, Copy, Debug, PartialEq, Eq, Structural)]
pub enum DeviceState {
    Unknown,
    Unmanaged,
    Unavailable,
    Disconnected,
    Prepare,
    Config,
    NeedAuth,
    IpConfig,
    IpCheck,
    Secondaries,
    Activated,
    Deactivating,
    Failed,
}

/// Status icon for a wired network device in the given state.
pub open spec fn wired_icon_name_spec(state: DeviceState) -> Seq<char> {
    match state {
        DeviceState::Unknown => "network-wired-error-symbolic"@,
        DeviceState::Unmanaged => "network-wired-disconnected-symbolic"@,
        DeviceState::Unavailable => "network-wired-disconnected-symbolic"@,
        DeviceState::Disconnected => "network-wired-disconnected-symbolic"@,
        DeviceState::Prepare => "network-wired-acquiring-symbolic"@,
        DeviceState::Config => "network-wired-acquiring-symbolic"@,
        DeviceState::IpConfig => "network-wired-acquiring-symbolic"@,
        DeviceState::IpCheck => "network-wired-acquiring-symbolic"@,
        DeviceState::Secondaries => "network-wired-acquiring-symbolic"@,
        DeviceState::Deactivating => "network-wired-acquiring-symbolic"@,
        DeviceState::NeedAuth => "network-wired-no-route-symbolic"@,
        DeviceState::Activated => "network-wired-activated-symbolic"@,
        DeviceState::Failed => "network-wired-error-symbolic"@,
    }
}

/// Status icon for a wired network device.
pub fn wired_icon_name(state: DeviceState) -> (r: String)
    ensures
        r@ == wired_icon_name_spec(state),
{
    match state {
        DeviceState::Unknown => "network-wired-error-symbolic".to_owned(),
        DeviceState::Unmanaged => "network-wired-disconnected-symbolic".to_owned(),
        DeviceState::Unavailable => "network-wired-disconnected-symbolic".to_owned(),
        DeviceState::Disconnected => "network-wired-disconnected-symbolic".to_owned(),
        DeviceState::Prepare => "network-wired-acquiring-symbolic".to_owned(),
        DeviceState::Config => "network-wired-acquiring-symbolic".to_owned(),
        DeviceState::IpConfig => "network-wired-acquiring-symbolic".to_owned(),
        DeviceState::IpCheck => "network-wired-acquiring-symbolic".to_owned(),
        DeviceState::Secondaries => "network-wired-acquiring-symbolic".to_owned(),
        DeviceState::Deactivating => "network-wired-acquiring-symbolic".to_owned(),
        DeviceState::NeedAuth => "network-wired-no-route-symbolic".to_owned(),
        DeviceState::Activated => "network-wired-activated-symbolic".to_owned(),
        DeviceState::Failed => "network-wired-error-symbolic".to_owned(),
    }
}

/// Status icon for a wireless device in the given state; an activated
/// device shows the generic icon until an access point's strength is
/// known.
pub open spec fn wireless_icon_name_spec(state: DeviceState) -> Seq<char> {
    match state {
        DeviceState::Unknown => "network-wireless-error-symbolic"@,
        DeviceState::Unmanaged => "network-wireless-offline-symbolic"@,
        DeviceState::Unavailable => "network-wireless-offline-symbolic"@,
        DeviceState::Disconnected => "network-wireless-offline-symbolic"@,
        DeviceState::Prepare => "network-wireless-acquiring-symbolic"@,
        DeviceState::Config => "network-wireless-acquiring-symbolic"@,
        DeviceState::IpConfig => "network-wireless-acquiring-symbolic"@,
        DeviceState::IpCheck => "network-wireless-acquiring-symbolic"@,
        DeviceState::Secondaries => "network-wireless-acquiring-symbolic"@,
        DeviceState::Deactivating => "network-wireless-acquiring-symbolic"@,
        DeviceState::NeedAuth => "network-wireless-no-route-symbolic"@,
        DeviceState::Activated => "network-wireless-symbolic"@,
        DeviceState::Failed => "network-wireless-error-symbolic"@,
    }
}

/// Status icon for a wireless network device.
pub fn wireless_icon_name(state: DeviceState) -> (r: String)
    ensures
        r@ == wireless_icon_name_spec(state),
{
    match state {
        DeviceState::Unknown => "network-wireless-error-symbolic".to_owned(),
        DeviceState::Unmanaged => "network-wireless-offline-symbolic".to_owned(),
        DeviceState::Unavailable => "network-wireless-offline-symbolic".to_owned(),
        DeviceState::Disconnected => "network-wireless-offline-symbolic".to_owned(),
        DeviceState::Prepare => "network-wireless-acquiring-symbolic".to_owned(),
        DeviceState::Config => "network-wireless-acquiring-symbolic".to_owned(),
        DeviceState::IpConfig => "network-wireless-acquiring-symbolic".to_owned(),
        DeviceState::IpCheck => "network-wireless-acquiring-symbolic".to_owned(),
        DeviceState::Secondaries => "network-wireless-acquiring-symbolic".to_owned(),
        DeviceState::Deactivating => "network-wireless-acquiring-symbolic".to_owned(),
        DeviceState::NeedAuth => "network-wireless-no-route-symbolic".to_owned(),
        DeviceState::Activated => "network-wireless-symbolic".to_owned(),
        DeviceState::Failed => "network-wireless-error-symbolic".to_owned(),
    }
}

/// Signal-strength icon for a wireless access point, by strength bands.
pub open spec fn wireless_strength_icon_spec(strength: u8) -> Seq<char> {
    if strength < 20 {
        "network-wireless-signal-none-symbolic"@
    } else if strength < 40 {
        "network-wireless-signal-weak-symbolic"@
    } else if strength < 60 {
        "network-wireless-signal-ok-symbolic"@
    } else if strength < 80 {
        "network-wireless-signal-good-symbolic"@
    } else {
        "network-wireless-symbolic"@
    }
}

/// Signal-strength icon for a wireless access point.
pub fn wireless_strength_icon(strength: u8) -> (r: String)
    ensures
        r@ == wireless_strength_icon_spec(strength),
{
    if strength < 20 {
        "network-wireless-signal-none-symbolic".to_owned()
    } else if strength < 40 {
        "network-wireless-signal-weak-symbolic".to_owned()
    } else if strength < 60 {
        "network-wireless-signal-ok-symbolic".to_owned()
    } else if strength < 80 {
        "network-wireless-signal-good-symbolic".to_owned()
    } else {
        "network-wireless-symbolic".to_owned()
    }
}

} // verus!
