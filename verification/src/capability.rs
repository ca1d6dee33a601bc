//! The capabilities a plugin asks the host for, and their wire names.
use vstd::prelude::*;
use crate::text::str_is;

verus! {

/// A permission a plugin declares in its manifest.
#[derive(Debug, Clone, Copy, PartialEq, Eq, Hash, Structural)]
pub enum Capability {
    ChannelRead,
    ChannelWrite,
    ChannelSubscribe,
    ChannelCreate,
    ChannelAttachData,
    MixAttachData,
    ConfigRead,
    ConfigWrite,
    ConfigNamespaceRead,
    ConfigNamespaceWrite,
    EventsPublish,
    EventsSubscribe,
    AudioPlay,
    AudioMute,
    AudioBackendStatus,
    AudioPosition,
    LevelsRead,
    PipewireContribute,
    UiSettingsSection,
    UiStatusPill,
    UiChannelOverlay,
    UiIframe,
    UiInputOverlay,
    TrayContribute,
    KeybindRegister,
    PortalGlobalShortcuts,
    HardwareUsb,
    HardwareEvdev,
    FsRead,
    FsWrite,
    NetHttp,
    ProcessSpawn,
    SecretsRead,
    SecretsWrite,
    LogWrite,
}

/// The name a capability is written under in manifests and on the wire.
pub open spec fn wire_spec(c: Capability) -> Seq<char> {
    match c {
        Capability::ChannelRead => "channel.read"@,
        Capability::ChannelWrite => "channel.write"@,
        Capability::ChannelSubscribe => "channel.subscribe"@,
        Capability::ChannelCreate => "channel.create"@,
        Capability::ChannelAttachData => "channel.attach_data"@,
        Capability::MixAttachData => "mix.attach_data"@,
        Capability::ConfigRead => "config.read"@,
        Capability::ConfigWrite => "config.write"@,
        Capability::ConfigNamespaceRead => "config.namespace.read"@,
        Capability::ConfigNamespaceWrite => "config.namespace.write"@,
        Capability::EventsPublish => "events.publish"@,
        Capability::EventsSubscribe => "events.subscribe"@,
        Capability::AudioPlay => "audio.play"@,
        Capability::AudioMute => "audio.mute"@,
        Capability::AudioBackendStatus => "audio.backend_status"@,
        Capability::AudioPosition => "audio.position"@,
        Capability::LevelsRead => "levels.read"@,
        Capability::PipewireContribute => "pipewire.contribute"@,
        Capability::UiSettingsSection => "ui.settings_section"@,
        Capability::UiStatusPill => "ui.status_pill"@,
        Capability::UiChannelOverlay => "ui.channel_overlay"@,
        Capability::UiIframe => "ui.iframe"@,
        Capability::UiInputOverlay => "ui.input_overlay"@,
        Capability::TrayContribute => "tray.contribute"@,
        Capability::KeybindRegister => "keybind.register"@,
        Capability::PortalGlobalShortcuts => "portal.global_shortcuts"@,
        Capability::HardwareUsb => "hardware.usb"@,
        Capability::HardwareEvdev => "hardware.evdev"@,
        Capability::FsRead => "fs.read"@,
        Capability::FsWrite => "fs.write"@,
        Capability::NetHttp => "net.http"@,
        Capability::ProcessSpawn => "process.spawn"@,
        Capability::SecretsRead => "secrets.read"@,
        Capability::SecretsWrite => "secrets.write"@,
        Capability::LogWrite => "log.write"@,
    }
}

/// The capability a wire name stands for.
pub open spec fn from_wire_spec(s: Seq<char>) -> Option<Capability> {
    if s == "channel.read"@ {
        Some(Capability::ChannelRead)
    } else if s == "channel.write"@ {
        Some(Capability::ChannelWrite)
    } else if s == "channel.subscribe"@ {
        Some(Capability::ChannelSubscribe)
    } else if s == "channel.create"@ {
        Some(Capability::ChannelCreate)
    } else if s == "channel.attach_data"@ {
        Some(Capability::ChannelAttachData)
    } else if s == "mix.attach_data"@ {
        Some(Capability::MixAttachData)
    } else if s == "config.read"@ {
        Some(Capability::ConfigRead)
    } else if s == "config.write"@ {
        Some(Capability::ConfigWrite)
    } else if s == "config.namespace.read"@ {
        Some(Capability::ConfigNamespaceRead)
    } else if s == "config.namespace.write"@ {
        Some(Capability::ConfigNamespaceWrite)
    } else if s == "events.publish"@ {
        Some(Capability::EventsPublish)
    } else if s == "events.subscribe"@ {
        Some(Capability::EventsSubscribe)
    } else if s == "audio.play"@ {
        Some(Capability::AudioPlay)
    } else if s == "audio.mute"@ {
        Some(Capability::AudioMute)
    } else if s == "audio.backend_status"@ {
        Some(Capability::AudioBackendStatus)
    } else if s == "audio.position"@ {
        Some(Capability::AudioPosition)
    } else if s == "levels.read"@ {
        Some(Capability::LevelsRead)
    } else if s == "pipewire.contribute"@ {
        Some(Capability::PipewireContribute)
    } else if s == "ui.settings_section"@ {
        Some(Capability::UiSettingsSection)
    } else if s == "ui.status_pill"@ {
        Some(Capability::UiStatusPill)
    } else if s == "ui.channel_overlay"@ {
        Some(Capability::UiChannelOverlay)
    } else if s == "ui.iframe"@ {
        Some(Capability::UiIframe)
    } else if s == "ui.input_overlay"@ {
        Some(Capability::UiInputOverlay)
    } else if s == "tray.contribute"@ {
        Some(Capability::TrayContribute)
    } else if s == "keybind.register"@ {
        Some(Capability::KeybindRegister)
    } else if s == "portal.global_shortcuts"@ {
        Some(Capability::PortalGlobalShortcuts)
    } else if s == "hardware.usb"@ {
        Some(Capability::HardwareUsb)
    } else if s == "hardware.evdev"@ {
        Some(Capability::HardwareEvdev)
    } else if s == "fs.read"@ {
        Some(Capability::FsRead)
    } else if s == "fs.write"@ {
        Some(Capability::FsWrite)
    } else if s == "net.http"@ {
        Some(Capability::NetHttp)
    } else if s == "process.spawn"@ {
        Some(Capability::ProcessSpawn)
    } else if s == "secrets.read"@ {
        Some(Capability::SecretsRead)
    } else if s == "secrets.write"@ {
        Some(Capability::SecretsWrite)
    } else if s == "log.write"@ {
        Some(Capability::LogWrite)
    } else {
        None
    }
}

impl Capability {
    pub fn wire_name(&self) -> (r: &'static str)
        ensures
            r@ == wire_spec(*self),
    {
        match self {
            Capability::ChannelRead => "channel.read",
            Capability::ChannelWrite => "channel.write",
            Capability::ChannelSubscribe => "channel.subscribe",
            Capability::ChannelCreate => "channel.create",
            Capability::ChannelAttachData => "channel.attach_data",
            Capability::MixAttachData => "mix.attach_data",
            Capability::ConfigRead => "config.read",
            Capability::ConfigWrite => "config.write",
            Capability::ConfigNamespaceRead => "config.namespace.read",
            Capability::ConfigNamespaceWrite => "config.namespace.write",
            Capability::EventsPublish => "events.publish",
            Capability::EventsSubscribe => "events.subscribe",
            Capability::AudioPlay => "audio.play",
            Capability::AudioMute => "audio.mute",
            Capability::AudioBackendStatus => "audio.backend_status",
            Capability::AudioPosition => "audio.position",
            Capability::LevelsRead => "levels.read",
            Capability::PipewireContribute => "pipewire.contribute",
            Capability::UiSettingsSection => "ui.settings_section",
            Capability::UiStatusPill => "ui.status_pill",
            Capability::UiChannelOverlay => "ui.channel_overlay",
            Capability::UiIframe => "ui.iframe",
            Capability::UiInputOverlay => "ui.input_overlay",
            Capability::TrayContribute => "tray.contribute",
            Capability::KeybindRegister => "keybind.register",
            Capability::PortalGlobalShortcuts => "portal.global_shortcuts",
            Capability::HardwareUsb => "hardware.usb",
            Capability::HardwareEvdev => "hardware.evdev",
            Capability::FsRead => "fs.read",
            Capability::FsWrite => "fs.write",
            Capability::NetHttp => "net.http",
            Capability::ProcessSpawn => "process.spawn",
            Capability::SecretsRead => "secrets.read",
            Capability::SecretsWrite => "secrets.write",
            Capability::LogWrite => "log.write",
        }
    }

    /// Reads a wire name; an unknown name is refused.
    pub fn from_wire(s: &str) -> (r: Option<Capability>)
        ensures
            r == from_wire_spec(s@),
    {
        if str_is(s, "channel.read") {
            Some(Capability::ChannelRead)
        } else if str_is(s, "channel.write") {
            Some(Capability::ChannelWrite)
        } else if str_is(s, "channel.subscribe") {
            Some(Capability::ChannelSubscribe)
        } else if str_is(s, "channel.create") {
            Some(Capability::ChannelCreate)
        } else if str_is(s, "channel.attach_data") {
            Some(Capability::ChannelAttachData)
        } else if str_is(s, "mix.attach_data") {
            Some(Capability::MixAttachData)
        } else if str_is(s, "config.read") {
            Some(Capability::ConfigRead)
        } else if str_is(s, "config.write") {
            Some(Capability::ConfigWrite)
        } else if str_is(s, "config.namespace.read") {
            Some(Capability::ConfigNamespaceRead)
        } else if str_is(s, "config.namespace.write") {
            Some(Capability::ConfigNamespaceWrite)
        } else if str_is(s, "events.publish") {
            Some(Capability::EventsPublish)
        } else if str_is(s, "events.subscribe") {
            Some(Capability::EventsSubscribe)
        } else if str_is(s, "audio.play") {
            Some(Capability::AudioPlay)
        } else if str_is(s, "audio.mute") {
            Some(Capability::AudioMute)
        } else if str_is(s, "audio.backend_status") {
            Some(Capability::AudioBackendStatus)
        } else if str_is(s, "audio.position") {
            Some(Capability::AudioPosition)
        } else if str_is(s, "levels.read") {
            Some(Capability::LevelsRead)
        } else if str_is(s, "pipewire.contribute") {
            Some(Capability::PipewireContribute)
        } else if str_is(s, "ui.settings_section") {
            Some(Capability::UiSettingsSection)
        } else if str_is(s, "ui.status_pill") {
            Some(Capability::UiStatusPill)
        } else if str_is(s, "ui.channel_overlay") {
            Some(Capability::UiChannelOverlay)
        } else if str_is(s, "ui.iframe") {
            Some(Capability::UiIframe)
        } else if str_is(s, "ui.input_overlay") {
            Some(Capability::UiInputOverlay)
        } else if str_is(s, "tray.contribute") {
            Some(Capability::TrayContribute)
        } else if str_is(s, "keybind.register") {
            Some(Capability::KeybindRegister)
        } else if str_is(s, "portal.global_shortcuts") {
            Some(Capability::PortalGlobalShortcuts)
        } else if str_is(s, "hardware.usb") {
            Some(Capability::HardwareUsb)
        } else if str_is(s, "hardware.evdev") {
            Some(Capability::HardwareEvdev)
        } else if str_is(s, "fs.read") {
            Some(Capability::FsRead)
        } else if str_is(s, "fs.write") {
            Some(Capability::FsWrite)
        } else if str_is(s, "net.http") {
            Some(Capability::NetHttp)
        } else if str_is(s, "process.spawn") {
            Some(Capability::ProcessSpawn)
        } else if str_is(s, "secrets.read") {
            Some(Capability::SecretsRead)
        } else if str_is(s, "secrets.write") {
            Some(Capability::SecretsWrite)
        } else if str_is(s, "log.write") {
            Some(Capability::LogWrite)
        } else {
            None
        }
    }
}

proof fn lemma_wire_literals()
    ensures
        "channel.read"@ == seq!['c', 'h', 'a', 'n', 'n', 'e', 'l', '.', 'r', 'e', 'a', 'd'],
        "channel.write"@ == seq!['c', 'h', 'a', 'n', 'n', 'e', 'l', '.', 'w', 'r', 'i', 't', 'e'],
        "channel.subscribe"@ == seq!['c', 'h', 'a', 'n', 'n', 'e', 'l', '.', 's', 'u', 'b', 's', 'c', 'r', 'i', 'b', 'e'],
        "channel.create"@ == seq!['c', 'h', 'a', 'n', 'n', 'e', 'l', '.', 'c', 'r', 'e', 'a', 't', 'e'],
        "channel.attach_data"@ == seq!['c', 'h', 'a', 'n', 'n', 'e', 'l', '.', 'a', 't', 't', 'a', 'c', 'h', '_', 'd', 'a', 't', 'a'],
        "mix.attach_data"@ == seq!['m', 'i', 'x', '.', 'a', 't', 't', 'a', 'c', 'h', '_', 'd', 'a', 't', 'a'],
        "config.read"@ == seq!['c', 'o', 'n', 'f', 'i', 'g', '.', 'r', 'e', 'a', 'd'],
        "config.write"@ == seq!['c', 'o', 'n', 'f', 'i', 'g', '.', 'w', 'r', 'i', 't', 'e'],
        "config.namespace.read"@ == seq!['c', 'o', 'n', 'f', 'i', 'g', '.', 'n', 'a', 'm', 'e', 's', 'p', 'a', 'c', 'e', '.', 'r', 'e', 'a', 'd'],
        "config.namespace.write"@ == seq!['c', 'o', 'n', 'f', 'i', 'g', '.', 'n', 'a', 'm', 'e', 's', 'p', 'a', 'c', 'e', '.', 'w', 'r', 'i', 't', 'e'],
        "events.publish"@ == seq!['e', 'v', 'e', 'n', 't', 's', '.', 'p', 'u', 'b', 'l', 'i', 's', 'h'],
        "events.subscribe"@ == seq!['e', 'v', 'e', 'n', 't', 's', '.', 's', 'u', 'b', 's', 'c', 'r', 'i', 'b', 'e'],
        "audio.play"@ == seq!['a', 'u', 'd', 'i', 'o', '.', 'p', 'l', 'a', 'y'],
        "audio.mute"@ == seq!['a', 'u', 'd', 'i', 'o', '.', 'm', 'u', 't', 'e'],
        "audio.backend_status"@ == seq!['a', 'u', 'd', 'i', 'o', '.', 'b', 'a', 'c', 'k', 'e', 'n', 'd', '_', 's', 't', 'a', 't', 'u', 's'],
        "audio.position"@ == seq!['a', 'u', 'd', 'i', 'o', '.', 'p', 'o', 's', 'i', 't', 'i', 'o', 'n'],
        "levels.read"@ == seq!['l', 'e', 'v', 'e', 'l', 's', '.', 'r', 'e', 'a', 'd'],
        "pipewire.contribute"@ == seq!['p', 'i', 'p', 'e', 'w', 'i', 'r', 'e', '.', 'c', 'o', 'n', 't', 'r', 'i', 'b', 'u', 't', 'e'],
        "ui.settings_section"@ == seq!['u', 'i', '.', 's', 'e', 't', 't', 'i', 'n', 'g', 's', '_', 's', 'e', 'c', 't', 'i', 'o', 'n'],
        "ui.status_pill"@ == seq!['u', 'i', '.', 's', 't', 'a', 't', 'u', 's', '_', 'p', 'i', 'l', 'l'],
        "ui.channel_overlay"@ == seq!['u', 'i', '.', 'c', 'h', 'a', 'n', 'n', 'e', 'l', '_', 'o', 'v', 'e', 'r', 'l', 'a', 'y'],
        "ui.iframe"@ == seq!['u', 'i', '.', 'i', 'f', 'r', 'a', 'm', 'e'],
        "ui.input_overlay"@ == seq!['u', 'i', '.', 'i', 'n', 'p', 'u', 't', '_', 'o', 'v', 'e', 'r', 'l', 'a', 'y'],
        "tray.contribute"@ == seq!['t', 'r', 'a', 'y', '.', 'c', 'o', 'n', 't', 'r', 'i', 'b', 'u', 't', 'e'],
        "keybind.register"@ == seq!['k', 'e', 'y', 'b', 'i', 'n', 'd', '.', 'r', 'e', 'g', 'i', 's', 't', 'e', 'r'],
        "portal.global_shortcuts"@ == seq!['p', 'o', 'r', 't', 'a', 'l', '.', 'g', 'l', 'o', 'b', 'a', 'l', '_', 's', 'h', 'o', 'r', 't', 'c', 'u', 't', 's'],
        "hardware.usb"@ == seq!['h', 'a', 'r', 'd', 'w', 'a', 'r', 'e', '.', 'u', 's', 'b'],
        "hardware.evdev"@ == seq!['h', 'a', 'r', 'd', 'w', 'a', 'r', 'e', '.', 'e', 'v', 'd', 'e', 'v'],
        "fs.read"@ == seq!['f', 's', '.', 'r', 'e', 'a', 'd'],
        "fs.write"@ == seq!['f', 's', '.', 'w', 'r', 'i', 't', 'e'],
        "net.http"@ == seq!['n', 'e', 't', '.', 'h', 't', 't', 'p'],
        "process.spawn"@ == seq!['p', 'r', 'o', 'c', 'e', 's', 's', '.', 's', 'p', 'a', 'w', 'n'],
        "secrets.read"@ == seq!['s', 'e', 'c', 'r', 'e', 't', 's', '.', 'r', 'e', 'a', 'd'],
        "secrets.write"@ == seq!['s', 'e', 'c', 'r', 'e', 't', 's', '.', 'w', 'r', 'i', 't', 'e'],
        "log.write"@ == seq!['l', 'o', 'g', '.', 'w', 'r', 'i', 't', 'e'],
{
    reveal_strlit("channel.read");
    reveal_strlit("channel.write");
    reveal_strlit("channel.subscribe");
    reveal_strlit("channel.create");
    reveal_strlit("channel.attach_data");
    reveal_strlit("mix.attach_data");
    reveal_strlit("config.read");
    reveal_strlit("config.write");
    reveal_strlit("config.namespace.read");
    reveal_strlit("config.namespace.write");
    reveal_strlit("events.publish");
    reveal_strlit("events.subscribe");
    reveal_strlit("audio.play");
    reveal_strlit("audio.mute");
    reveal_strlit("audio.backend_status");
    reveal_strlit("audio.position");
    reveal_strlit("levels.read");
    reveal_strlit("pipewire.contribute");
    reveal_strlit("ui.settings_section");
    reveal_strlit("ui.status_pill");
    reveal_strlit("ui.channel_overlay");
    reveal_strlit("ui.iframe");
    reveal_strlit("ui.input_overlay");
    reveal_strlit("tray.contribute");
    reveal_strlit("keybind.register");
    reveal_strlit("portal.global_shortcuts");
    reveal_strlit("hardware.usb");
    reveal_strlit("hardware.evdev");
    reveal_strlit("fs.read");
    reveal_strlit("fs.write");
    reveal_strlit("net.http");
    reveal_strlit("process.spawn");
    reveal_strlit("secrets.read");
    reveal_strlit("secrets.write");
    reveal_strlit("log.write");
}

/// Every capability reads back from its wire name, so no two share one.
pub proof fn law_wire_roundtrip(c: Capability)
    ensures
        from_wire_spec(wire_spec(c)) == Some(c),
{
    lemma_wire_literals();
}

} // verus!
