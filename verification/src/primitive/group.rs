//! Tag groups: the type of a tag, its name (used as a file extension) and its FourCC.

use vstd::prelude::*;
use crate::error::{Error, RinghopperResult};
use crate::text::{chars_of, chars_eq};
use crate::endian::{ByteOrder, spec_u32_from_bytes, spec_u32_to_bytes};
use crate::parse::{SimpleTagData, spec_read_bytes};
use vstd::std_specs::convert::TryFromSpecImpl;

verus! {

/// Tag groups are serialized as a 32-bit FourCC integer.
pub type FourCC = u32;

/// Number of tag groups, including [`TagGroup::_Unset`].
pub const TAG_GROUP_COUNT: usize = 86;

/// Refers to a tag group, or a type of tag.
///
/// Tag groups are ordered by their names; the variants are declared in that order (`<unset>` sorts first).
#[derive(Copy, Clone, PartialEq, Eq, Structural, Debug, Hash, Default, PartialOrd, Ord)]
pub enum TagGroup {
    /// Denotes the state of the tag group not being set.
    ///
    /// This is considered invalid at runtime, but some fields that use tag groups may not always have a tag group set.
    #[default]
    _Unset,
    Actor,
    ActorVariant,
    Antenna,
    Biped,
    Bitmap,
    CameraTrack,
    ColorTable,
    ContinuousDamageEffect,
    Contrail,
    DamageEffect,
    Decal,
    DetailObjectCollection,
    Device,
    DeviceControl,
    DeviceLightFixture,
    DeviceMachine,
    Dialogue,
    Effect,
    Equipment,
    Flag,
    Fog,
    Font,
    Garbage,
    GBXModel,
    Globals,
    Glow,
    GrenadeHUDInterface,
    HUDGlobals,
    HUDMessageText,
    HUDNumber,
    InputDeviceDefaults,
    Item,
    ItemCollection,
    LensFlare,
    Light,
    LightVolume,
    Lightning,
    MaterialEffects,
    Meter,
    Model,
    ModelAnimations,
    ModelCollisionGeometry,
    MultiplayerScenarioDescription,
    Object,
    Particle,
    ParticleSystem,
    Physics,
    Placeholder,
    PointPhysics,
    PreferencesNetworkGame,
    Projectile,
    Scenario,
    ScenarioStructureBSP,
    Scenery,
    Shader,
    ShaderEnvironment,
    ShaderModel,
    ShaderTransparentChicago,
    ShaderTransparentChicagoExtended,
    ShaderTransparentGeneric,
    ShaderTransparentGlass,
    ShaderTransparentMeter,
    ShaderTransparentPlasma,
    ShaderTransparentWater,
    Sky,
    Sound,
    SoundEnvironment,
    SoundLooping,
    SoundScenery,
    Spheroid,
    StringList,
    TagCollection,
    UIWidgetCollection,
    UIWidgetDefinition,
    UnicodeStringList,
    Unit,
    UnitHUDInterface,
    VectorFont,
    VectorFontData,
    Vehicle,
    VirtualKeyboard,
    Weapon,
    WeaponHUDInterface,
    WeatherParticleSystem,
    Wind,
}

/// The name of a tag group (its file extension).
pub open spec fn spec_group_name(group: TagGroup) -> Seq<char> {
    match group {
        TagGroup::Actor => "actor"@,
        TagGroup::ActorVariant => "actor_variant"@,
        TagGroup::Antenna => "antenna"@,
        TagGroup::Biped => "biped"@,
        TagGroup::Bitmap => "bitmap"@,
        TagGroup::CameraTrack => "camera_track"@,
        TagGroup::ColorTable => "color_table"@,
        TagGroup::ContinuousDamageEffect => "continuous_damage_effect"@,
        TagGroup::Contrail => "contrail"@,
        TagGroup::DamageEffect => "damage_effect"@,
        TagGroup::Decal => "decal"@,
        TagGroup::DetailObjectCollection => "detail_object_collection"@,
        TagGroup::Device => "device"@,
        TagGroup::DeviceControl => "device_control"@,
        TagGroup::DeviceLightFixture => "device_light_fixture"@,
        TagGroup::DeviceMachine => "device_machine"@,
        TagGroup::Dialogue => "dialogue"@,
        TagGroup::Effect => "effect"@,
        TagGroup::Equipment => "equipment"@,
        TagGroup::Flag => "flag"@,
        TagGroup::Fog => "fog"@,
        TagGroup::Font => "font"@,
        TagGroup::Garbage => "garbage"@,
        TagGroup::GBXModel => "gbxmodel"@,
        TagGroup::Globals => "globals"@,
        TagGroup::Glow => "glow"@,
        TagGroup::GrenadeHUDInterface => "grenade_hud_interface"@,
        TagGroup::HUDGlobals => "hud_globals"@,
        TagGroup::HUDMessageText => "hud_message_text"@,
        TagGroup::HUDNumber => "hud_number"@,
        TagGroup::InputDeviceDefaults => "input_device_defaults"@,
        TagGroup::Item => "item"@,
        TagGroup::ItemCollection => "item_collection"@,
        TagGroup::LensFlare => "lens_flare"@,
        TagGroup::Light => "light"@,
        TagGroup::LightVolume => "light_volume"@,
        TagGroup::Lightning => "lightning"@,
        TagGroup::MaterialEffects => "material_effects"@,
        TagGroup::Meter => "meter"@,
        TagGroup::Model => "model"@,
        TagGroup::ModelAnimations => "model_animations"@,
        TagGroup::ModelCollisionGeometry => "model_collision_geometry"@,
        TagGroup::MultiplayerScenarioDescription => "multiplayer_scenario_description"@,
        TagGroup::Object => "object"@,
        TagGroup::Particle => "particle"@,
        TagGroup::ParticleSystem => "particle_system"@,
        TagGroup::Physics => "physics"@,
        TagGroup::Placeholder => "placeholder"@,
        TagGroup::PointPhysics => "point_physics"@,
        TagGroup::PreferencesNetworkGame => "preferences_network_game"@,
        TagGroup::Projectile => "projectile"@,
        TagGroup::Scenario => "scenario"@,
        TagGroup::ScenarioStructureBSP => "scenario_structure_bsp"@,
        TagGroup::Scenery => "scenery"@,
        TagGroup::Shader => "shader"@,
        TagGroup::ShaderEnvironment => "shader_environment"@,
        TagGroup::ShaderModel => "shader_model"@,
        TagGroup::ShaderTransparentChicago => "shader_transparent_chicago"@,
        TagGroup::ShaderTransparentChicagoExtended => "shader_transparent_chicago_extended"@,
        TagGroup::ShaderTransparentGeneric => "shader_transparent_generic"@,
        TagGroup::ShaderTransparentGlass => "shader_transparent_glass"@,
        TagGroup::ShaderTransparentMeter => "shader_transparent_meter"@,
        TagGroup::ShaderTransparentPlasma => "shader_transparent_plasma"@,
        TagGroup::ShaderTransparentWater => "shader_transparent_water"@,
        TagGroup::Sky => "sky"@,
        TagGroup::Sound => "sound"@,
        TagGroup::SoundEnvironment => "sound_environment"@,
        TagGroup::SoundLooping => "sound_looping"@,
        TagGroup::SoundScenery => "sound_scenery"@,
        TagGroup::Spheroid => "spheroid"@,
        TagGroup::StringList => "string_list"@,
        TagGroup::TagCollection => "tag_collection"@,
        TagGroup::UIWidgetCollection => "ui_widget_collection"@,
        TagGroup::UIWidgetDefinition => "ui_widget_definition"@,
        TagGroup::UnicodeStringList => "unicode_string_list"@,
        TagGroup::Unit => "unit"@,
        TagGroup::UnitHUDInterface => "unit_hud_interface"@,
        TagGroup::VectorFont => "vector_font"@,
        TagGroup::VectorFontData => "vector_font_data"@,
        TagGroup::Vehicle => "vehicle"@,
        TagGroup::VirtualKeyboard => "virtual_keyboard"@,
        TagGroup::Weapon => "weapon"@,
        TagGroup::WeaponHUDInterface => "weapon_hud_interface"@,
        TagGroup::WeatherParticleSystem => "weather_particle_system"@,
        TagGroup::Wind => "wind"@,
        TagGroup::_Unset => "<unset>"@,
    }
}

/// The FourCC of a tag group.
pub open spec fn spec_group_fourcc(group: TagGroup) -> FourCC {
    match group {
        TagGroup::Actor => 0x61637472,
        TagGroup::ActorVariant => 0x61637476,
        TagGroup::Antenna => 0x616E7421,
        TagGroup::Biped => 0x62697064,
        TagGroup::Bitmap => 0x6269746D,
        TagGroup::CameraTrack => 0x7472616B,
        TagGroup::ColorTable => 0x636F6C6F,
        TagGroup::ContinuousDamageEffect => 0x63646D67,
        TagGroup::Contrail => 0x636F6E74,
        TagGroup::DamageEffect => 0x6A707421,
        TagGroup::Decal => 0x64656361,
        TagGroup::DetailObjectCollection => 0x646F6263,
        TagGroup::Device => 0x64657669,
        TagGroup::DeviceControl => 0x6374726C,
        TagGroup::DeviceLightFixture => 0x6C696669,
        TagGroup::DeviceMachine => 0x6D616368,
        TagGroup::Dialogue => 0x75646C67,
        TagGroup::Effect => 0x65666665,
        TagGroup::Equipment => 0x65716970,
        TagGroup::Flag => 0x666C6167,
        TagGroup::Fog => 0x666F6720,
        TagGroup::Font => 0x666F6E74,
        TagGroup::Garbage => 0x67617262,
        TagGroup::GBXModel => 0x6D6F6432,
        TagGroup::Globals => 0x6D617467,
        TagGroup::Glow => 0x676C7721,
        TagGroup::GrenadeHUDInterface => 0x67726869,
        TagGroup::HUDGlobals => 0x68756467,
        TagGroup::HUDMessageText => 0x686D7420,
        TagGroup::HUDNumber => 0x68756423,
        TagGroup::InputDeviceDefaults => 0x64657663,
        TagGroup::Item => 0x6974656D,
        TagGroup::ItemCollection => 0x69746D63,
        TagGroup::LensFlare => 0x6C656E73,
        TagGroup::Light => 0x6C696768,
        TagGroup::LightVolume => 0x6D677332,
        TagGroup::Lightning => 0x656C6563,
        TagGroup::MaterialEffects => 0x666F6F74,
        TagGroup::Meter => 0x6D657472,
        TagGroup::Model => 0x6D6F6465,
        TagGroup::ModelAnimations => 0x616E7472,
        TagGroup::ModelCollisionGeometry => 0x636F6C6C,
        TagGroup::MultiplayerScenarioDescription => 0x6D706C79,
        TagGroup::Object => 0x6F626A65,
        TagGroup::Particle => 0x70617274,
        TagGroup::ParticleSystem => 0x7063746C,
        TagGroup::Physics => 0x70687973,
        TagGroup::Placeholder => 0x706C6163,
        TagGroup::PointPhysics => 0x70706879,
        TagGroup::PreferencesNetworkGame => 0x6E677072,
        TagGroup::Projectile => 0x70726F6A,
        TagGroup::Scenario => 0x73636E72,
        TagGroup::ScenarioStructureBSP => 0x73627370,
        TagGroup::Scenery => 0x7363656E,
        TagGroup::Shader => 0x73686472,
        TagGroup::ShaderEnvironment => 0x73656E76,
        TagGroup::ShaderModel => 0x736F736F,
        TagGroup::ShaderTransparentChicago => 0x73636869,
        TagGroup::ShaderTransparentChicagoExtended => 0x73636578,
        TagGroup::ShaderTransparentGeneric => 0x736F7472,
        TagGroup::ShaderTransparentGlass => 0x73676C61,
        TagGroup::ShaderTransparentMeter => 0x736D6574,
        TagGroup::ShaderTransparentPlasma => 0x73706C61,
        TagGroup::ShaderTransparentWater => 0x73776174,
        TagGroup::Sky => 0x736B7920,
        TagGroup::Sound => 0x736E6421,
        TagGroup::SoundEnvironment => 0x736E6465,
        TagGroup::SoundLooping => 0x6C736E64,
        TagGroup::SoundScenery => 0x73736365,
        TagGroup::Spheroid => 0x626F6F6D,
        TagGroup::StringList => 0x73747223,
        TagGroup::TagCollection => 0x74616763,
        TagGroup::UIWidgetCollection => 0x536F756C,
        TagGroup::UIWidgetDefinition => 0x44654C61,
        TagGroup::UnicodeStringList => 0x75737472,
        TagGroup::Unit => 0x756E6974,
        TagGroup::UnitHUDInterface => 0x756E6869,
        TagGroup::VectorFont => 0x76666E74,
        TagGroup::VectorFontData => 0x76666E64,
        TagGroup::Vehicle => 0x76656869,
        TagGroup::VirtualKeyboard => 0x76636B79,
        TagGroup::Weapon => 0x77656170,
        TagGroup::WeaponHUDInterface => 0x77706869,
        TagGroup::WeatherParticleSystem => 0x7261696E,
        TagGroup::Wind => 0x77696E64,
        TagGroup::_Unset => 0x00000000,
    }
}

/// The position of a tag group in the alphabetical list of all groups (`_Unset` last).
pub open spec fn spec_group_index(group: TagGroup) -> int {
    match group {
        TagGroup::Actor => 0,
        TagGroup::ActorVariant => 1,
        TagGroup::Antenna => 2,
        TagGroup::Biped => 3,
        TagGroup::Bitmap => 4,
        TagGroup::CameraTrack => 5,
        TagGroup::ColorTable => 6,
        TagGroup::ContinuousDamageEffect => 7,
        TagGroup::Contrail => 8,
        TagGroup::DamageEffect => 9,
        TagGroup::Decal => 10,
        TagGroup::DetailObjectCollection => 11,
        TagGroup::Device => 12,
        TagGroup::DeviceControl => 13,
        TagGroup::DeviceLightFixture => 14,
        TagGroup::DeviceMachine => 15,
        TagGroup::Dialogue => 16,
        TagGroup::Effect => 17,
        TagGroup::Equipment => 18,
        TagGroup::Flag => 19,
        TagGroup::Fog => 20,
        TagGroup::Font => 21,
        TagGroup::Garbage => 22,
        TagGroup::GBXModel => 23,
        TagGroup::Globals => 24,
        TagGroup::Glow => 25,
        TagGroup::GrenadeHUDInterface => 26,
        TagGroup::HUDGlobals => 27,
        TagGroup::HUDMessageText => 28,
        TagGroup::HUDNumber => 29,
        TagGroup::InputDeviceDefaults => 30,
        TagGroup::Item => 31,
        TagGroup::ItemCollection => 32,
        TagGroup::LensFlare => 33,
        TagGroup::Light => 34,
        TagGroup::LightVolume => 35,
        TagGroup::Lightning => 36,
        TagGroup::MaterialEffects => 37,
        TagGroup::Meter => 38,
        TagGroup::Model => 39,
        TagGroup::ModelAnimations => 40,
        TagGroup::ModelCollisionGeometry => 41,
        TagGroup::MultiplayerScenarioDescription => 42,
        TagGroup::Object => 43,
        TagGroup::Particle => 44,
        TagGroup::ParticleSystem => 45,
        TagGroup::Physics => 46,
        TagGroup::Placeholder => 47,
        TagGroup::PointPhysics => 48,
        TagGroup::PreferencesNetworkGame => 49,
        TagGroup::Projectile => 50,
        TagGroup::Scenario => 51,
        TagGroup::ScenarioStructureBSP => 52,
        TagGroup::Scenery => 53,
        TagGroup::Shader => 54,
        TagGroup::ShaderEnvironment => 55,
        TagGroup::ShaderModel => 56,
        TagGroup::ShaderTransparentChicago => 57,
        TagGroup::ShaderTransparentChicagoExtended => 58,
        TagGroup::ShaderTransparentGeneric => 59,
        TagGroup::ShaderTransparentGlass => 60,
        TagGroup::ShaderTransparentMeter => 61,
        TagGroup::ShaderTransparentPlasma => 62,
        TagGroup::ShaderTransparentWater => 63,
        TagGroup::Sky => 64,
        TagGroup::Sound => 65,
        TagGroup::SoundEnvironment => 66,
        TagGroup::SoundLooping => 67,
        TagGroup::SoundScenery => 68,
        TagGroup::Spheroid => 69,
        TagGroup::StringList => 70,
        TagGroup::TagCollection => 71,
        TagGroup::UIWidgetCollection => 72,
        TagGroup::UIWidgetDefinition => 73,
        TagGroup::UnicodeStringList => 74,
        TagGroup::Unit => 75,
        TagGroup::UnitHUDInterface => 76,
        TagGroup::VectorFont => 77,
        TagGroup::VectorFontData => 78,
        TagGroup::Vehicle => 79,
        TagGroup::VirtualKeyboard => 80,
        TagGroup::Weapon => 81,
        TagGroup::WeaponHUDInterface => 82,
        TagGroup::WeatherParticleSystem => 83,
        TagGroup::Wind => 84,
        TagGroup::_Unset => 85,
    }
}

/// The group that `group` derives from, if any.
pub open spec fn spec_subgroup(group: TagGroup) -> Option<TagGroup> {
    match group {
        TagGroup::Unit => Some(TagGroup::Object),
        TagGroup::Item => Some(TagGroup::Object),
        TagGroup::Device => Some(TagGroup::Object),
        TagGroup::Biped => Some(TagGroup::Unit),
        TagGroup::Vehicle => Some(TagGroup::Unit),
        TagGroup::Weapon => Some(TagGroup::Item),
        TagGroup::Garbage => Some(TagGroup::Item),
        TagGroup::Equipment => Some(TagGroup::Item),
        TagGroup::DeviceMachine => Some(TagGroup::Device),
        TagGroup::DeviceControl => Some(TagGroup::Device),
        TagGroup::DeviceLightFixture => Some(TagGroup::Device),
        TagGroup::Projectile => Some(TagGroup::Object),
        TagGroup::Scenery => Some(TagGroup::Object),
        TagGroup::Placeholder => Some(TagGroup::Object),
        TagGroup::SoundScenery => Some(TagGroup::Object),
        TagGroup::ShaderModel => Some(TagGroup::Shader),
        TagGroup::ShaderEnvironment => Some(TagGroup::Shader),
        TagGroup::ShaderTransparentChicago => Some(TagGroup::Shader),
        TagGroup::ShaderTransparentChicagoExtended => Some(TagGroup::Shader),
        TagGroup::ShaderTransparentGeneric => Some(TagGroup::Shader),
        TagGroup::ShaderTransparentGlass => Some(TagGroup::Shader),
        TagGroup::ShaderTransparentMeter => Some(TagGroup::Shader),
        TagGroup::ShaderTransparentPlasma => Some(TagGroup::Shader),
        TagGroup::ShaderTransparentWater => Some(TagGroup::Shader),
        _ => None,
    }
}

/// The four-character class code of a tag group, as tag files and cache files name the group; the unset group's
/// code is four NUL characters.
pub open spec fn spec_group_class_code(group: TagGroup) -> (char, char, char, char) {
    match group {
        TagGroup::Actor => ('a', 'c', 't', 'r'),
        TagGroup::ActorVariant => ('a', 'c', 't', 'v'),
        TagGroup::Antenna => ('a', 'n', 't', '!'),
        TagGroup::Biped => ('b', 'i', 'p', 'd'),
        TagGroup::Bitmap => ('b', 'i', 't', 'm'),
        TagGroup::CameraTrack => ('t', 'r', 'a', 'k'),
        TagGroup::ColorTable => ('c', 'o', 'l', 'o'),
        TagGroup::ContinuousDamageEffect => ('c', 'd', 'm', 'g'),
        TagGroup::Contrail => ('c', 'o', 'n', 't'),
        TagGroup::DamageEffect => ('j', 'p', 't', '!'),
        TagGroup::Decal => ('d', 'e', 'c', 'a'),
        TagGroup::DetailObjectCollection => ('d', 'o', 'b', 'c'),
        TagGroup::Device => ('d', 'e', 'v', 'i'),
        TagGroup::DeviceControl => ('c', 't', 'r', 'l'),
        TagGroup::DeviceLightFixture => ('l', 'i', 'f', 'i'),
        TagGroup::DeviceMachine => ('m', 'a', 'c', 'h'),
        TagGroup::Dialogue => ('u', 'd', 'l', 'g'),
        TagGroup::Effect => ('e', 'f', 'f', 'e'),
        TagGroup::Equipment => ('e', 'q', 'i', 'p'),
        TagGroup::Flag => ('f', 'l', 'a', 'g'),
        TagGroup::Fog => ('f', 'o', 'g', ' '),
        TagGroup::Font => ('f', 'o', 'n', 't'),
        TagGroup::Garbage => ('g', 'a', 'r', 'b'),
        TagGroup::GBXModel => ('m', 'o', 'd', '2'),
        TagGroup::Globals => ('m', 'a', 't', 'g'),
        TagGroup::Glow => ('g', 'l', 'w', '!'),
        TagGroup::GrenadeHUDInterface => ('g', 'r', 'h', 'i'),
        TagGroup::HUDGlobals => ('h', 'u', 'd', 'g'),
        TagGroup::HUDMessageText => ('h', 'm', 't', ' '),
        TagGroup::HUDNumber => ('h', 'u', 'd', '#'),
        TagGroup::InputDeviceDefaults => ('d', 'e', 'v', 'c'),
        TagGroup::Item => ('i', 't', 'e', 'm'),
        TagGroup::ItemCollection => ('i', 't', 'm', 'c'),
        TagGroup::LensFlare => ('l', 'e', 'n', 's'),
        TagGroup::Light => ('l', 'i', 'g', 'h'),
        TagGroup::LightVolume => ('m', 'g', 's', '2'),
        TagGroup::Lightning => ('e', 'l', 'e', 'c'),
        TagGroup::MaterialEffects => ('f', 'o', 'o', 't'),
        TagGroup::Meter => ('m', 'e', 't', 'r'),
        TagGroup::Model => ('m', 'o', 'd', 'e'),
        TagGroup::ModelAnimations => ('a', 'n', 't', 'r'),
        TagGroup::ModelCollisionGeometry => ('c', 'o', 'l', 'l'),
        TagGroup::MultiplayerScenarioDescription => ('m', 'p', 'l', 'y'),
        TagGroup::Object => ('o', 'b', 'j', 'e'),
        TagGroup::Particle => ('p', 'a', 'r', 't'),
        TagGroup::ParticleSystem => ('p', 'c', 't', 'l'),
        TagGroup::Physics => ('p', 'h', 'y', 's'),
        TagGroup::Placeholder => ('p', 'l', 'a', 'c'),
        TagGroup::PointPhysics => ('p', 'p', 'h', 'y'),
        TagGroup::PreferencesNetworkGame => ('n', 'g', 'p', 'r'),
        TagGroup::Projectile => ('p', 'r', 'o', 'j'),
        TagGroup::Scenario => ('s', 'c', 'n', 'r'),
        TagGroup::ScenarioStructureBSP => ('s', 'b', 's', 'p'),
        TagGroup::Scenery => ('s', 'c', 'e', 'n'),
        TagGroup::Shader => ('s', 'h', 'd', 'r'),
        TagGroup::ShaderEnvironment => ('s', 'e', 'n', 'v'),
        TagGroup::ShaderModel => ('s', 'o', 's', 'o'),
        TagGroup::ShaderTransparentChicago => ('s', 'c', 'h', 'i'),
        TagGroup::ShaderTransparentChicagoExtended => ('s', 'c', 'e', 'x'),
        TagGroup::ShaderTransparentGeneric => ('s', 'o', 't', 'r'),
        TagGroup::ShaderTransparentGlass => ('s', 'g', 'l', 'a'),
        TagGroup::ShaderTransparentMeter => ('s', 'm', 'e', 't'),
        TagGroup::ShaderTransparentPlasma => ('s', 'p', 'l', 'a'),
        TagGroup::ShaderTransparentWater => ('s', 'w', 'a', 't'),
        TagGroup::Sky => ('s', 'k', 'y', ' '),
        TagGroup::Sound => ('s', 'n', 'd', '!'),
        TagGroup::SoundEnvironment => ('s', 'n', 'd', 'e'),
        TagGroup::SoundLooping => ('l', 's', 'n', 'd'),
        TagGroup::SoundScenery => ('s', 's', 'c', 'e'),
        TagGroup::Spheroid => ('b', 'o', 'o', 'm'),
        TagGroup::StringList => ('s', 't', 'r', '#'),
        TagGroup::TagCollection => ('t', 'a', 'g', 'c'),
        TagGroup::UIWidgetCollection => ('S', 'o', 'u', 'l'),
        TagGroup::UIWidgetDefinition => ('D', 'e', 'L', 'a'),
        TagGroup::UnicodeStringList => ('u', 's', 't', 'r'),
        TagGroup::Unit => ('u', 'n', 'i', 't'),
        TagGroup::UnitHUDInterface => ('u', 'n', 'h', 'i'),
        TagGroup::VectorFont => ('v', 'f', 'n', 't'),
        TagGroup::VectorFontData => ('v', 'f', 'n', 'd'),
        TagGroup::Vehicle => ('v', 'e', 'h', 'i'),
        TagGroup::VirtualKeyboard => ('v', 'c', 'k', 'y'),
        TagGroup::Weapon => ('w', 'e', 'a', 'p'),
        TagGroup::WeaponHUDInterface => ('w', 'p', 'h', 'i'),
        TagGroup::WeatherParticleSystem => ('r', 'a', 'i', 'n'),
        TagGroup::Wind => ('w', 'i', 'n', 'd'),
        TagGroup::_Unset => ('\0', '\0', '\0', '\0'),
    }
}

/// The FourCC of a four-character code: its characters as big-endian bytes.
pub open spec fn spec_fourcc_of(code: (char, char, char, char)) -> int {
    (code.0 as int) * 0x1000000 + (code.1 as int) * 0x10000 + (code.2 as int) * 0x100 + (code.3 as int)
}

/// Law: a tag group's FourCC is its class code read as a big-endian 32-bit number (`bipd` for a biped, `weap` for a
/// weapon), and that number identifies the group.
pub proof fn law_group_fourcc_is_class_code(group: TagGroup)
    ensures
        spec_group_fourcc(group) as int == spec_fourcc_of(spec_group_class_code(group)),
        spec_group_from_fourcc(spec_fourcc_of(spec_group_class_code(group)) as u32) == Some(group),
{
    law_fourcc_roundtrip(group);
}

/// Law: the tag class hierarchy. Units, items, devices, projectiles, scenery, placeholders and sound scenery are
/// objects; bipeds and vehicles are units; weapons, garbage and equipment are items; machines, controls and light
/// fixtures are devices; the shaders of models, environments and transparent surfaces are shaders; no other group has
/// a parent. The full subgroup tree of a group is the group, its parent and its grandparent, unset where there is none.
pub proof fn law_tag_class_hierarchy(g: TagGroup)
    ensures
        spec_subgroup(g) == Some(TagGroup::Object) <==> (g == TagGroup::Unit || g == TagGroup::Item || g == TagGroup::Device
            || g == TagGroup::Projectile || g == TagGroup::Scenery || g == TagGroup::Placeholder || g
            == TagGroup::SoundScenery),
        spec_subgroup(g) == Some(TagGroup::Unit) <==> (g == TagGroup::Biped || g == TagGroup::Vehicle),
        spec_subgroup(g) == Some(TagGroup::Item) <==> (g == TagGroup::Weapon || g == TagGroup::Garbage || g
            == TagGroup::Equipment),
        spec_subgroup(g) == Some(TagGroup::Device) <==> (g == TagGroup::DeviceMachine || g == TagGroup::DeviceControl || g
            == TagGroup::DeviceLightFixture),
        spec_subgroup(g) == Some(TagGroup::Shader) <==> (g == TagGroup::ShaderModel || g == TagGroup::ShaderEnvironment || g
            == TagGroup::ShaderTransparentChicago || g == TagGroup::ShaderTransparentChicagoExtended || g
            == TagGroup::ShaderTransparentGeneric || g == TagGroup::ShaderTransparentGlass || g
            == TagGroup::ShaderTransparentMeter || g == TagGroup::ShaderTransparentPlasma || g
            == TagGroup::ShaderTransparentWater),
        spec_subgroup(g) is Some ==> spec_subgroup(g) == Some(TagGroup::Object) || spec_subgroup(g) == Some(TagGroup::Unit)
            || spec_subgroup(g) == Some(TagGroup::Item) || spec_subgroup(g) == Some(TagGroup::Device) || spec_subgroup(g)
            == Some(TagGroup::Shader),
        spec_full_subgroup_tree(g)[0] == g,
        spec_full_subgroup_tree(g)[1] == match spec_subgroup(g) {
            Some(p) => p,
            None => TagGroup::_Unset,
        },
        spec_full_subgroup_tree(g)[2] == match spec_subgroup(g) {
            Some(p) => match spec_subgroup(p) {
                Some(q) => q,
                None => TagGroup::_Unset,
            },
            None => TagGroup::_Unset,
        },
{
}

/// The tag group matching `fourcc`: the group with that FourCC, or `_Unset` for `0xFFFFFFFF`.
pub open spec fn spec_group_from_fourcc(fourcc: FourCC) -> Option<TagGroup> {
    if exists|g: TagGroup| spec_group_fourcc(g) == fourcc {
        Some(choose|g: TagGroup| spec_group_fourcc(g) == fourcc)
    } else if fourcc == 0xFFFFFFFF {
        Some(TagGroup::_Unset)
    } else {
        None
    }
}

/// `true` if `group` is the first group, in alphabetical order, whose name is `name` (tag group names are distinct).
pub open spec fn spec_group_named(group: TagGroup, name: Seq<char>) -> bool {
    &&& spec_group_name(group) == name
    &&& forall|j: int| 0 <= j < spec_group_index(group) ==> spec_group_name(#[trigger] spec_group_at(j)) != name
}

/// The group whose name is `name`, if any.
pub open spec fn spec_group_from_name(name: Seq<char>) -> Option<TagGroup> {
    if name.len() == 3 {
        if name == "fog"@ {
            Some(TagGroup::Fog)
        } else if name == "sky"@ {
            Some(TagGroup::Sky)
        } else {
            None
        }
    } else if name.len() == 4 {
        if name == "flag"@ {
            Some(TagGroup::Flag)
        } else if name == "font"@ {
            Some(TagGroup::Font)
        } else if name == "glow"@ {
            Some(TagGroup::Glow)
        } else if name == "item"@ {
            Some(TagGroup::Item)
        } else if name == "unit"@ {
            Some(TagGroup::Unit)
        } else if name == "wind"@ {
            Some(TagGroup::Wind)
        } else {
            None
        }
    } else if name.len() == 5 {
        if name == "actor"@ {
            Some(TagGroup::Actor)
        } else if name == "biped"@ {
            Some(TagGroup::Biped)
        } else if name == "decal"@ {
            Some(TagGroup::Decal)
        } else if name == "light"@ {
            Some(TagGroup::Light)
        } else if name == "meter"@ {
            Some(TagGroup::Meter)
        } else if name == "model"@ {
            Some(TagGroup::Model)
        } else if name == "sound"@ {
            Some(TagGroup::Sound)
        } else {
            None
        }
    } else if name.len() == 6 {
        if name == "bitmap"@ {
            Some(TagGroup::Bitmap)
        } else if name == "device"@ {
            Some(TagGroup::Device)
        } else if name == "effect"@ {
            Some(TagGroup::Effect)
        } else if name == "object"@ {
            Some(TagGroup::Object)
        } else if name == "shader"@ {
            Some(TagGroup::Shader)
        } else if name == "weapon"@ {
            Some(TagGroup::Weapon)
        } else {
            None
        }
    } else if name.len() == 7 {
        if name == "antenna"@ {
            Some(TagGroup::Antenna)
        } else if name == "garbage"@ {
            Some(TagGroup::Garbage)
        } else if name == "globals"@ {
            Some(TagGroup::Globals)
        } else if name == "physics"@ {
            Some(TagGroup::Physics)
        } else if name == "scenery"@ {
            Some(TagGroup::Scenery)
        } else if name == "vehicle"@ {
            Some(TagGroup::Vehicle)
        } else if name == "<unset>"@ {
            Some(TagGroup::_Unset)
        } else {
            None
        }
    } else if name.len() == 8 {
        if name == "contrail"@ {
            Some(TagGroup::Contrail)
        } else if name == "dialogue"@ {
            Some(TagGroup::Dialogue)
        } else if name == "gbxmodel"@ {
            Some(TagGroup::GBXModel)
        } else if name == "particle"@ {
            Some(TagGroup::Particle)
        } else if name == "scenario"@ {
            Some(TagGroup::Scenario)
        } else if name == "spheroid"@ {
            Some(TagGroup::Spheroid)
        } else {
            None
        }
    } else if name.len() == 9 {
        if name == "equipment"@ {
            Some(TagGroup::Equipment)
        } else if name == "lightning"@ {
            Some(TagGroup::Lightning)
        } else {
            None
        }
    } else if name.len() == 10 {
        if name == "hud_number"@ {
            Some(TagGroup::HUDNumber)
        } else if name == "lens_flare"@ {
            Some(TagGroup::LensFlare)
        } else if name == "projectile"@ {
            Some(TagGroup::Projectile)
        } else {
            None
        }
    } else if name.len() == 11 {
        if name == "color_table"@ {
            Some(TagGroup::ColorTable)
        } else if name == "hud_globals"@ {
            Some(TagGroup::HUDGlobals)
        } else if name == "placeholder"@ {
            Some(TagGroup::Placeholder)
        } else if name == "string_list"@ {
            Some(TagGroup::StringList)
        } else if name == "vector_font"@ {
            Some(TagGroup::VectorFont)
        } else {
            None
        }
    } else if name.len() == 12 {
        if name == "camera_track"@ {
            Some(TagGroup::CameraTrack)
        } else if name == "light_volume"@ {
            Some(TagGroup::LightVolume)
        } else if name == "shader_model"@ {
            Some(TagGroup::ShaderModel)
        } else {
            None
        }
    } else if name.len() == 13 {
        if name == "actor_variant"@ {
            Some(TagGroup::ActorVariant)
        } else if name == "damage_effect"@ {
            Some(TagGroup::DamageEffect)
        } else if name == "point_physics"@ {
            Some(TagGroup::PointPhysics)
        } else if name == "sound_looping"@ {
            Some(TagGroup::SoundLooping)
        } else if name == "sound_scenery"@ {
            Some(TagGroup::SoundScenery)
        } else {
            None
        }
    } else if name.len() == 14 {
        if name == "device_control"@ {
            Some(TagGroup::DeviceControl)
        } else if name == "device_machine"@ {
            Some(TagGroup::DeviceMachine)
        } else if name == "tag_collection"@ {
            Some(TagGroup::TagCollection)
        } else {
            None
        }
    } else if name.len() == 15 {
        if name == "item_collection"@ {
            Some(TagGroup::ItemCollection)
        } else if name == "particle_system"@ {
            Some(TagGroup::ParticleSystem)
        } else {
            None
        }
    } else if name.len() == 16 {
        if name == "hud_message_text"@ {
            Some(TagGroup::HUDMessageText)
        } else if name == "material_effects"@ {
            Some(TagGroup::MaterialEffects)
        } else if name == "model_animations"@ {
            Some(TagGroup::ModelAnimations)
        } else if name == "vector_font_data"@ {
            Some(TagGroup::VectorFontData)
        } else if name == "virtual_keyboard"@ {
            Some(TagGroup::VirtualKeyboard)
        } else {
            None
        }
    } else if name.len() == 17 {
        if name == "sound_environment"@ {
            Some(TagGroup::SoundEnvironment)
        } else {
            None
        }
    } else if name.len() == 18 {
        if name == "shader_environment"@ {
            Some(TagGroup::ShaderEnvironment)
        } else if name == "unit_hud_interface"@ {
            Some(TagGroup::UnitHUDInterface)
        } else {
            None
        }
    } else if name.len() == 19 {
        if name == "unicode_string_list"@ {
            Some(TagGroup::UnicodeStringList)
        } else {
            None
        }
    } else if name.len() == 20 {
        if name == "device_light_fixture"@ {
            Some(TagGroup::DeviceLightFixture)
        } else if name == "ui_widget_collection"@ {
            Some(TagGroup::UIWidgetCollection)
        } else if name == "ui_widget_definition"@ {
            Some(TagGroup::UIWidgetDefinition)
        } else if name == "weapon_hud_interface"@ {
            Some(TagGroup::WeaponHUDInterface)
        } else {
            None
        }
    } else if name.len() == 21 {
        if name == "grenade_hud_interface"@ {
            Some(TagGroup::GrenadeHUDInterface)
        } else if name == "input_device_defaults"@ {
            Some(TagGroup::InputDeviceDefaults)
        } else {
            None
        }
    } else if name.len() == 22 {
        if name == "scenario_structure_bsp"@ {
            Some(TagGroup::ScenarioStructureBSP)
        } else {
            None
        }
    } else if name.len() == 23 {
        if name == "weather_particle_system"@ {
            Some(TagGroup::WeatherParticleSystem)
        } else {
            None
        }
    } else if name.len() == 24 {
        if name == "continuous_damage_effect"@ {
            Some(TagGroup::ContinuousDamageEffect)
        } else if name == "detail_object_collection"@ {
            Some(TagGroup::DetailObjectCollection)
        } else if name == "model_collision_geometry"@ {
            Some(TagGroup::ModelCollisionGeometry)
        } else if name == "preferences_network_game"@ {
            Some(TagGroup::PreferencesNetworkGame)
        } else if name == "shader_transparent_glass"@ {
            Some(TagGroup::ShaderTransparentGlass)
        } else if name == "shader_transparent_meter"@ {
            Some(TagGroup::ShaderTransparentMeter)
        } else if name == "shader_transparent_water"@ {
            Some(TagGroup::ShaderTransparentWater)
        } else {
            None
        }
    } else if name.len() == 25 {
        if name == "shader_transparent_plasma"@ {
            Some(TagGroup::ShaderTransparentPlasma)
        } else {
            None
        }
    } else if name.len() == 26 {
        if name == "shader_transparent_chicago"@ {
            Some(TagGroup::ShaderTransparentChicago)
        } else if name == "shader_transparent_generic"@ {
            Some(TagGroup::ShaderTransparentGeneric)
        } else {
            None
        }
    } else if name.len() == 32 {
        if name == "multiplayer_scenario_description"@ {
            Some(TagGroup::MultiplayerScenarioDescription)
        } else {
            None
        }
    } else if name.len() == 35 {
        if name == "shader_transparent_chicago_extended"@ {
            Some(TagGroup::ShaderTransparentChicagoExtended)
        } else {
            None
        }
    } else {
        None
    }
}

/// A group's name names that group alone.
proof fn lemma_group_from_own_name(g: TagGroup)
    ensures
        spec_group_from_name(spec_group_name(g)) == Some(g),
{
    match g {
        TagGroup::Actor => {
            reveal_strlit("actor");
            reveal_strlit("biped");
            reveal_strlit("decal");
            reveal_strlit("light");
            reveal_strlit("meter");
            reveal_strlit("model");
            reveal_strlit("sound");
            assert(spec_group_from_name("actor"@) == Some(TagGroup::Actor));
        },
        TagGroup::ActorVariant => {
            reveal_strlit("actor_variant");
            reveal_strlit("damage_effect");
            reveal_strlit("point_physics");
            reveal_strlit("sound_looping");
            reveal_strlit("sound_scenery");
            assert(spec_group_from_name("actor_variant"@) == Some(TagGroup::ActorVariant));
        },
        TagGroup::Antenna => {
            reveal_strlit("antenna");
            reveal_strlit("garbage");
            reveal_strlit("globals");
            reveal_strlit("physics");
            reveal_strlit("scenery");
            reveal_strlit("vehicle");
            reveal_strlit("<unset>");
            assert(spec_group_from_name("antenna"@) == Some(TagGroup::Antenna));
        },
        TagGroup::Biped => {
            reveal_strlit("actor");
            reveal_strlit("biped");
            reveal_strlit("decal");
            reveal_strlit("light");
            reveal_strlit("meter");
            reveal_strlit("model");
            reveal_strlit("sound");
            assert("biped"@[0] != "actor"@[0]);
            assert(spec_group_from_name("biped"@) == Some(TagGroup::Biped));
        },
        TagGroup::Bitmap => {
            reveal_strlit("bitmap");
            reveal_strlit("device");
            reveal_strlit("effect");
            reveal_strlit("object");
            reveal_strlit("shader");
            reveal_strlit("weapon");
            assert(spec_group_from_name("bitmap"@) == Some(TagGroup::Bitmap));
        },
        TagGroup::CameraTrack => {
            reveal_strlit("camera_track");
            reveal_strlit("light_volume");
            reveal_strlit("shader_model");
            assert(spec_group_from_name("camera_track"@) == Some(TagGroup::CameraTrack));
        },
        TagGroup::ColorTable => {
            reveal_strlit("color_table");
            reveal_strlit("hud_globals");
            reveal_strlit("placeholder");
            reveal_strlit("string_list");
            reveal_strlit("vector_font");
            assert(spec_group_from_name("color_table"@) == Some(TagGroup::ColorTable));
        },
        TagGroup::ContinuousDamageEffect => {
            reveal_strlit("continuous_damage_effect");
            reveal_strlit("detail_object_collection");
            reveal_strlit("model_collision_geometry");
            reveal_strlit("preferences_network_game");
            reveal_strlit("shader_transparent_glass");
            reveal_strlit("shader_transparent_meter");
            reveal_strlit("shader_transparent_water");
            assert(spec_group_from_name("continuous_damage_effect"@) == Some(TagGroup::ContinuousDamageEffect));
        },
        TagGroup::Contrail => {
            reveal_strlit("contrail");
            reveal_strlit("dialogue");
            reveal_strlit("gbxmodel");
            reveal_strlit("particle");
            reveal_strlit("scenario");
            reveal_strlit("spheroid");
            assert(spec_group_from_name("contrail"@) == Some(TagGroup::Contrail));
        },
        TagGroup::DamageEffect => {
            reveal_strlit("actor_variant");
            reveal_strlit("damage_effect");
            reveal_strlit("point_physics");
            reveal_strlit("sound_looping");
            reveal_strlit("sound_scenery");
            assert("damage_effect"@[0] != "actor_variant"@[0]);
            assert(spec_group_from_name("damage_effect"@) == Some(TagGroup::DamageEffect));
        },
        TagGroup::Decal => {
            reveal_strlit("actor");
            reveal_strlit("biped");
            reveal_strlit("decal");
            reveal_strlit("light");
            reveal_strlit("meter");
            reveal_strlit("model");
            reveal_strlit("sound");
            assert("decal"@[0] != "actor"@[0]);
            assert("decal"@[0] != "biped"@[0]);
            assert(spec_group_from_name("decal"@) == Some(TagGroup::Decal));
        },
        TagGroup::DetailObjectCollection => {
            reveal_strlit("continuous_damage_effect");
            reveal_strlit("detail_object_collection");
            reveal_strlit("model_collision_geometry");
            reveal_strlit("preferences_network_game");
            reveal_strlit("shader_transparent_glass");
            reveal_strlit("shader_transparent_meter");
            reveal_strlit("shader_transparent_water");
            assert("detail_object_collection"@[0] != "continuous_damage_effect"@[0]);
            assert(spec_group_from_name("detail_object_collection"@) == Some(TagGroup::DetailObjectCollection));
        },
        TagGroup::Device => {
            reveal_strlit("bitmap");
            reveal_strlit("device");
            reveal_strlit("effect");
            reveal_strlit("object");
            reveal_strlit("shader");
            reveal_strlit("weapon");
            assert("device"@[0] != "bitmap"@[0]);
            assert(spec_group_from_name("device"@) == Some(TagGroup::Device));
        },
        TagGroup::DeviceControl => {
            reveal_strlit("device_control");
            reveal_strlit("device_machine");
            reveal_strlit("tag_collection");
            assert(spec_group_from_name("device_control"@) == Some(TagGroup::DeviceControl));
        },
        TagGroup::DeviceLightFixture => {
            reveal_strlit("device_light_fixture");
            reveal_strlit("ui_widget_collection");
            reveal_strlit("ui_widget_definition");
            reveal_strlit("weapon_hud_interface");
            assert(spec_group_from_name("device_light_fixture"@) == Some(TagGroup::DeviceLightFixture));
        },
        TagGroup::DeviceMachine => {
            reveal_strlit("device_control");
            reveal_strlit("device_machine");
            reveal_strlit("tag_collection");
            assert("device_machine"@[7] != "device_control"@[7]);
            assert(spec_group_from_name("device_machine"@) == Some(TagGroup::DeviceMachine));
        },
        TagGroup::Dialogue => {
            reveal_strlit("contrail");
            reveal_strlit("dialogue");
            reveal_strlit("gbxmodel");
            reveal_strlit("particle");
            reveal_strlit("scenario");
            reveal_strlit("spheroid");
            assert("dialogue"@[0] != "contrail"@[0]);
            assert(spec_group_from_name("dialogue"@) == Some(TagGroup::Dialogue));
        },
        TagGroup::Effect => {
            reveal_strlit("bitmap");
            reveal_strlit("device");
            reveal_strlit("effect");
            reveal_strlit("object");
            reveal_strlit("shader");
            reveal_strlit("weapon");
            assert("effect"@[0] != "bitmap"@[0]);
            assert("effect"@[0] != "device"@[0]);
            assert(spec_group_from_name("effect"@) == Some(TagGroup::Effect));
        },
        TagGroup::Equipment => {
            reveal_strlit("equipment");
            reveal_strlit("lightning");
            assert(spec_group_from_name("equipment"@) == Some(TagGroup::Equipment));
        },
        TagGroup::Flag => {
            reveal_strlit("flag");
            reveal_strlit("font");
            reveal_strlit("glow");
            reveal_strlit("item");
            reveal_strlit("unit");
            reveal_strlit("wind");
            assert(spec_group_from_name("flag"@) == Some(TagGroup::Flag));
        },
        TagGroup::Fog => {
            reveal_strlit("fog");
            reveal_strlit("sky");
            assert(spec_group_from_name("fog"@) == Some(TagGroup::Fog));
        },
        TagGroup::Font => {
            reveal_strlit("flag");
            reveal_strlit("font");
            reveal_strlit("glow");
            reveal_strlit("item");
            reveal_strlit("unit");
            reveal_strlit("wind");
            assert("font"@[1] != "flag"@[1]);
            assert(spec_group_from_name("font"@) == Some(TagGroup::Font));
        },
        TagGroup::Garbage => {
            reveal_strlit("antenna");
            reveal_strlit("garbage");
            reveal_strlit("globals");
            reveal_strlit("physics");
            reveal_strlit("scenery");
            reveal_strlit("vehicle");
            reveal_strlit("<unset>");
            assert("garbage"@[0] != "antenna"@[0]);
            assert(spec_group_from_name("garbage"@) == Some(TagGroup::Garbage));
        },
        TagGroup::GBXModel => {
            reveal_strlit("contrail");
            reveal_strlit("dialogue");
            reveal_strlit("gbxmodel");
            reveal_strlit("particle");
            reveal_strlit("scenario");
            reveal_strlit("spheroid");
            assert("gbxmodel"@[0] != "contrail"@[0]);
            assert("gbxmodel"@[0] != "dialogue"@[0]);
            assert(spec_group_from_name("gbxmodel"@) == Some(TagGroup::GBXModel));
        },
        TagGroup::Globals => {
            reveal_strlit("antenna");
            reveal_strlit("garbage");
            reveal_strlit("globals");
            reveal_strlit("physics");
            reveal_strlit("scenery");
            reveal_strlit("vehicle");
            reveal_strlit("<unset>");
            assert("globals"@[0] != "antenna"@[0]);
            assert("globals"@[1] != "garbage"@[1]);
            assert(spec_group_from_name("globals"@) == Some(TagGroup::Globals));
        },
        TagGroup::Glow => {
            reveal_strlit("flag");
            reveal_strlit("font");
            reveal_strlit("glow");
            reveal_strlit("item");
            reveal_strlit("unit");
            reveal_strlit("wind");
            assert("glow"@[0] != "flag"@[0]);
            assert("glow"@[0] != "font"@[0]);
            assert(spec_group_from_name("glow"@) == Some(TagGroup::Glow));
        },
        TagGroup::GrenadeHUDInterface => {
            reveal_strlit("grenade_hud_interface");
            reveal_strlit("input_device_defaults");
            assert(spec_group_from_name("grenade_hud_interface"@) == Some(TagGroup::GrenadeHUDInterface));
        },
        TagGroup::HUDGlobals => {
            reveal_strlit("color_table");
            reveal_strlit("hud_globals");
            reveal_strlit("placeholder");
            reveal_strlit("string_list");
            reveal_strlit("vector_font");
            assert("hud_globals"@[0] != "color_table"@[0]);
            assert(spec_group_from_name("hud_globals"@) == Some(TagGroup::HUDGlobals));
        },
        TagGroup::HUDMessageText => {
            reveal_strlit("hud_message_text");
            reveal_strlit("material_effects");
            reveal_strlit("model_animations");
            reveal_strlit("vector_font_data");
            reveal_strlit("virtual_keyboard");
            assert(spec_group_from_name("hud_message_text"@) == Some(TagGroup::HUDMessageText));
        },
        TagGroup::HUDNumber => {
            reveal_strlit("hud_number");
            reveal_strlit("lens_flare");
            reveal_strlit("projectile");
            assert(spec_group_from_name("hud_number"@) == Some(TagGroup::HUDNumber));
        },
        TagGroup::InputDeviceDefaults => {
            reveal_strlit("grenade_hud_interface");
            reveal_strlit("input_device_defaults");
            assert("input_device_defaults"@[0] != "grenade_hud_interface"@[0]);
            assert(spec_group_from_name("input_device_defaults"@) == Some(TagGroup::InputDeviceDefaults));
        },
        TagGroup::Item => {
            reveal_strlit("flag");
            reveal_strlit("font");
            reveal_strlit("glow");
            reveal_strlit("item");
            reveal_strlit("unit");
            reveal_strlit("wind");
            assert("item"@[0] != "flag"@[0]);
            assert("item"@[0] != "font"@[0]);
            assert("item"@[0] != "glow"@[0]);
            assert(spec_group_from_name("item"@) == Some(TagGroup::Item));
        },
        TagGroup::ItemCollection => {
            reveal_strlit("item_collection");
            reveal_strlit("particle_system");
            assert(spec_group_from_name("item_collection"@) == Some(TagGroup::ItemCollection));
        },
        TagGroup::LensFlare => {
            reveal_strlit("hud_number");
            reveal_strlit("lens_flare");
            reveal_strlit("projectile");
            assert("lens_flare"@[0] != "hud_number"@[0]);
            assert(spec_group_from_name("lens_flare"@) == Some(TagGroup::LensFlare));
        },
        TagGroup::Light => {
            reveal_strlit("actor");
            reveal_strlit("biped");
            reveal_strlit("decal");
            reveal_strlit("light");
            reveal_strlit("meter");
            reveal_strlit("model");
            reveal_strlit("sound");
            assert("light"@[0] != "actor"@[0]);
            assert("light"@[0] != "biped"@[0]);
            assert("light"@[0] != "decal"@[0]);
            assert(spec_group_from_name("light"@) == Some(TagGroup::Light));
        },
        TagGroup::LightVolume => {
            reveal_strlit("camera_track");
            reveal_strlit("light_volume");
            reveal_strlit("shader_model");
            assert("light_volume"@[0] != "camera_track"@[0]);
            assert(spec_group_from_name("light_volume"@) == Some(TagGroup::LightVolume));
        },
        TagGroup::Lightning => {
            reveal_strlit("equipment");
            reveal_strlit("lightning");
            assert("lightning"@[0] != "equipment"@[0]);
            assert(spec_group_from_name("lightning"@) == Some(TagGroup::Lightning));
        },
        TagGroup::MaterialEffects => {
            reveal_strlit("hud_message_text");
            reveal_strlit("material_effects");
            reveal_strlit("model_animations");
            reveal_strlit("vector_font_data");
            reveal_strlit("virtual_keyboard");
            assert("material_effects"@[0] != "hud_message_text"@[0]);
            assert(spec_group_from_name("material_effects"@) == Some(TagGroup::MaterialEffects));
        },
        TagGroup::Meter => {
            reveal_strlit("actor");
            reveal_strlit("biped");
            reveal_strlit("decal");
            reveal_strlit("light");
            reveal_strlit("meter");
            reveal_strlit("model");
            reveal_strlit("sound");
            assert("meter"@[0] != "actor"@[0]);
            assert("meter"@[0] != "biped"@[0]);
            assert("meter"@[0] != "decal"@[0]);
            assert("meter"@[0] != "light"@[0]);
            assert(spec_group_from_name("meter"@) == Some(TagGroup::Meter));
        },
        TagGroup::Model => {
            reveal_strlit("actor");
            reveal_strlit("biped");
            reveal_strlit("decal");
            reveal_strlit("light");
            reveal_strlit("meter");
            reveal_strlit("model");
            reveal_strlit("sound");
            assert("model"@[0] != "actor"@[0]);
            assert("model"@[0] != "biped"@[0]);
            assert("model"@[0] != "decal"@[0]);
            assert("model"@[0] != "light"@[0]);
            assert("model"@[1] != "meter"@[1]);
            assert(spec_group_from_name("model"@) == Some(TagGroup::Model));
        },
        TagGroup::ModelAnimations => {
            reveal_strlit("hud_message_text");
            reveal_strlit("material_effects");
            reveal_strlit("model_animations");
            reveal_strlit("vector_font_data");
            reveal_strlit("virtual_keyboard");
            assert("model_animations"@[0] != "hud_message_text"@[0]);
            assert("model_animations"@[1] != "material_effects"@[1]);
            assert(spec_group_from_name("model_animations"@) == Some(TagGroup::ModelAnimations));
        },
        TagGroup::ModelCollisionGeometry => {
            reveal_strlit("continuous_damage_effect");
            reveal_strlit("detail_object_collection");
            reveal_strlit("model_collision_geometry");
            reveal_strlit("preferences_network_game");
            reveal_strlit("shader_transparent_glass");
            reveal_strlit("shader_transparent_meter");
            reveal_strlit("shader_transparent_water");
            assert("model_collision_geometry"@[0] != "continuous_damage_effect"@[0]);
            assert("model_collision_geometry"@[0] != "detail_object_collection"@[0]);
            assert(spec_group_from_name("model_collision_geometry"@) == Some(TagGroup::ModelCollisionGeometry));
        },
        TagGroup::MultiplayerScenarioDescription => {
            reveal_strlit("multiplayer_scenario_description");
            assert(spec_group_from_name("multiplayer_scenario_description"@) == Some(TagGroup::MultiplayerScenarioDescription));
        },
        TagGroup::Object => {
            reveal_strlit("bitmap");
            reveal_strlit("device");
            reveal_strlit("effect");
            reveal_strlit("object");
            reveal_strlit("shader");
            reveal_strlit("weapon");
            assert("object"@[0] != "bitmap"@[0]);
            assert("object"@[0] != "device"@[0]);
            assert("object"@[0] != "effect"@[0]);
            assert(spec_group_from_name("object"@) == Some(TagGroup::Object));
        },
        TagGroup::Particle => {
            reveal_strlit("contrail");
            reveal_strlit("dialogue");
            reveal_strlit("gbxmodel");
            reveal_strlit("particle");
            reveal_strlit("scenario");
            reveal_strlit("spheroid");
            assert("particle"@[0] != "contrail"@[0]);
            assert("particle"@[0] != "dialogue"@[0]);
            assert("particle"@[0] != "gbxmodel"@[0]);
            assert(spec_group_from_name("particle"@) == Some(TagGroup::Particle));
        },
        TagGroup::ParticleSystem => {
            reveal_strlit("item_collection");
            reveal_strlit("particle_system");
            assert("particle_system"@[0] != "item_collection"@[0]);
            assert(spec_group_from_name("particle_system"@) == Some(TagGroup::ParticleSystem));
        },
        TagGroup::Physics => {
            reveal_strlit("antenna");
            reveal_strlit("garbage");
            reveal_strlit("globals");
            reveal_strlit("physics");
            reveal_strlit("scenery");
            reveal_strlit("vehicle");
            reveal_strlit("<unset>");
            assert("physics"@[0] != "antenna"@[0]);
            assert("physics"@[0] != "garbage"@[0]);
            assert("physics"@[0] != "globals"@[0]);
            assert(spec_group_from_name("physics"@) == Some(TagGroup::Physics));
        },
        TagGroup::Placeholder => {
            reveal_strlit("color_table");
            reveal_strlit("hud_globals");
            reveal_strlit("placeholder");
            reveal_strlit("string_list");
            reveal_strlit("vector_font");
            assert("placeholder"@[0] != "color_table"@[0]);
            assert("placeholder"@[0] != "hud_globals"@[0]);
            assert(spec_group_from_name("placeholder"@) == Some(TagGroup::Placeholder));
        },
        TagGroup::PointPhysics => {
            reveal_strlit("actor_variant");
            reveal_strlit("damage_effect");
            reveal_strlit("point_physics");
            reveal_strlit("sound_looping");
            reveal_strlit("sound_scenery");
            assert("point_physics"@[0] != "actor_variant"@[0]);
            assert("point_physics"@[0] != "damage_effect"@[0]);
            assert(spec_group_from_name("point_physics"@) == Some(TagGroup::PointPhysics));
        },
        TagGroup::PreferencesNetworkGame => {
            reveal_strlit("continuous_damage_effect");
            reveal_strlit("detail_object_collection");
            reveal_strlit("model_collision_geometry");
            reveal_strlit("preferences_network_game");
            reveal_strlit("shader_transparent_glass");
            reveal_strlit("shader_transparent_meter");
            reveal_strlit("shader_transparent_water");
            assert("preferences_network_game"@[0] != "continuous_damage_effect"@[0]);
            assert("preferences_network_game"@[0] != "detail_object_collection"@[0]);
            assert("preferences_network_game"@[0] != "model_collision_geometry"@[0]);
            assert(spec_group_from_name("preferences_network_game"@) == Some(TagGroup::PreferencesNetworkGame));
        },
        TagGroup::Projectile => {
            reveal_strlit("hud_number");
            reveal_strlit("lens_flare");
            reveal_strlit("projectile");
            assert("projectile"@[0] != "hud_number"@[0]);
            assert("projectile"@[0] != "lens_flare"@[0]);
            assert(spec_group_from_name("projectile"@) == Some(TagGroup::Projectile));
        },
        TagGroup::Scenario => {
            reveal_strlit("contrail");
            reveal_strlit("dialogue");
            reveal_strlit("gbxmodel");
            reveal_strlit("particle");
            reveal_strlit("scenario");
            reveal_strlit("spheroid");
            assert("scenario"@[0] != "contrail"@[0]);
            assert("scenario"@[0] != "dialogue"@[0]);
            assert("scenario"@[0] != "gbxmodel"@[0]);
            assert("scenario"@[0] != "particle"@[0]);
            assert(spec_group_from_name("scenario"@) == Some(TagGroup::Scenario));
        },
        TagGroup::ScenarioStructureBSP => {
            reveal_strlit("scenario_structure_bsp");
            assert(spec_group_from_name("scenario_structure_bsp"@) == Some(TagGroup::ScenarioStructureBSP));
        },
        TagGroup::Scenery => {
            reveal_strlit("antenna");
            reveal_strlit("garbage");
            reveal_strlit("globals");
            reveal_strlit("physics");
            reveal_strlit("scenery");
            reveal_strlit("vehicle");
            reveal_strlit("<unset>");
            assert("scenery"@[0] != "antenna"@[0]);
            assert("scenery"@[0] != "garbage"@[0]);
            assert("scenery"@[0] != "globals"@[0]);
            assert("scenery"@[0] != "physics"@[0]);
            assert(spec_group_from_name("scenery"@) == Some(TagGroup::Scenery));
        },
        TagGroup::Shader => {
            reveal_strlit("bitmap");
            reveal_strlit("device");
            reveal_strlit("effect");
            reveal_strlit("object");
            reveal_strlit("shader");
            reveal_strlit("weapon");
            assert("shader"@[0] != "bitmap"@[0]);
            assert("shader"@[0] != "device"@[0]);
            assert("shader"@[0] != "effect"@[0]);
            assert("shader"@[0] != "object"@[0]);
            assert(spec_group_from_name("shader"@) == Some(TagGroup::Shader));
        },
        TagGroup::ShaderEnvironment => {
            reveal_strlit("shader_environment");
            reveal_strlit("unit_hud_interface");
            assert(spec_group_from_name("shader_environment"@) == Some(TagGroup::ShaderEnvironment));
        },
        TagGroup::ShaderModel => {
            reveal_strlit("camera_track");
            reveal_strlit("light_volume");
            reveal_strlit("shader_model");
            assert("shader_model"@[0] != "camera_track"@[0]);
            assert("shader_model"@[0] != "light_volume"@[0]);
            assert(spec_group_from_name("shader_model"@) == Some(TagGroup::ShaderModel));
        },
        TagGroup::ShaderTransparentChicago => {
            reveal_strlit("shader_transparent_chicago");
            reveal_strlit("shader_transparent_generic");
            assert(spec_group_from_name("shader_transparent_chicago"@) == Some(TagGroup::ShaderTransparentChicago));
        },
        TagGroup::ShaderTransparentChicagoExtended => {
            reveal_strlit("shader_transparent_chicago_extended");
            assert(spec_group_from_name("shader_transparent_chicago_extended"@) == Some(TagGroup::ShaderTransparentChicagoExtended));
        },
        TagGroup::ShaderTransparentGeneric => {
            reveal_strlit("shader_transparent_chicago");
            reveal_strlit("shader_transparent_generic");
            assert("shader_transparent_generic"@[19] != "shader_transparent_chicago"@[19]);
            assert(spec_group_from_name("shader_transparent_generic"@) == Some(TagGroup::ShaderTransparentGeneric));
        },
        TagGroup::ShaderTransparentGlass => {
            reveal_strlit("continuous_damage_effect");
            reveal_strlit("detail_object_collection");
            reveal_strlit("model_collision_geometry");
            reveal_strlit("preferences_network_game");
            reveal_strlit("shader_transparent_glass");
            reveal_strlit("shader_transparent_meter");
            reveal_strlit("shader_transparent_water");
            assert("shader_transparent_glass"@[0] != "continuous_damage_effect"@[0]);
            assert("shader_transparent_glass"@[0] != "detail_object_collection"@[0]);
            assert("shader_transparent_glass"@[0] != "model_collision_geometry"@[0]);
            assert("shader_transparent_glass"@[0] != "preferences_network_game"@[0]);
            assert(spec_group_from_name("shader_transparent_glass"@) == Some(TagGroup::ShaderTransparentGlass));
        },
        TagGroup::ShaderTransparentMeter => {
            reveal_strlit("continuous_damage_effect");
            reveal_strlit("detail_object_collection");
            reveal_strlit("model_collision_geometry");
            reveal_strlit("preferences_network_game");
            reveal_strlit("shader_transparent_glass");
            reveal_strlit("shader_transparent_meter");
            reveal_strlit("shader_transparent_water");
            assert("shader_transparent_meter"@[0] != "continuous_damage_effect"@[0]);
            assert("shader_transparent_meter"@[0] != "detail_object_collection"@[0]);
            assert("shader_transparent_meter"@[0] != "model_collision_geometry"@[0]);
            assert("shader_transparent_meter"@[0] != "preferences_network_game"@[0]);
            assert("shader_transparent_meter"@[19] != "shader_transparent_glass"@[19]);
            assert(spec_group_from_name("shader_transparent_meter"@) == Some(TagGroup::ShaderTransparentMeter));
        },
        TagGroup::ShaderTransparentPlasma => {
            reveal_strlit("shader_transparent_plasma");
            assert(spec_group_from_name("shader_transparent_plasma"@) == Some(TagGroup::ShaderTransparentPlasma));
        },
        TagGroup::ShaderTransparentWater => {
            reveal_strlit("continuous_damage_effect");
            reveal_strlit("detail_object_collection");
            reveal_strlit("model_collision_geometry");
            reveal_strlit("preferences_network_game");
            reveal_strlit("shader_transparent_glass");
            reveal_strlit("shader_transparent_meter");
            reveal_strlit("shader_transparent_water");
            assert("shader_transparent_water"@[0] != "continuous_damage_effect"@[0]);
            assert("shader_transparent_water"@[0] != "detail_object_collection"@[0]);
            assert("shader_transparent_water"@[0] != "model_collision_geometry"@[0]);
            assert("shader_transparent_water"@[0] != "preferences_network_game"@[0]);
            assert("shader_transparent_water"@[19] != "shader_transparent_glass"@[19]);
            assert("shader_transparent_water"@[19] != "shader_transparent_meter"@[19]);
            assert(spec_group_from_name("shader_transparent_water"@) == Some(TagGroup::ShaderTransparentWater));
        },
        TagGroup::Sky => {
            reveal_strlit("fog");
            reveal_strlit("sky");
            assert("sky"@[0] != "fog"@[0]);
            assert(spec_group_from_name("sky"@) == Some(TagGroup::Sky));
        },
        TagGroup::Sound => {
            reveal_strlit("actor");
            reveal_strlit("biped");
            reveal_strlit("decal");
            reveal_strlit("light");
            reveal_strlit("meter");
            reveal_strlit("model");
            reveal_strlit("sound");
            assert("sound"@[0] != "actor"@[0]);
            assert("sound"@[0] != "biped"@[0]);
            assert("sound"@[0] != "decal"@[0]);
            assert("sound"@[0] != "light"@[0]);
            assert("sound"@[0] != "meter"@[0]);
            assert("sound"@[0] != "model"@[0]);
            assert(spec_group_from_name("sound"@) == Some(TagGroup::Sound));
        },
        TagGroup::SoundEnvironment => {
            reveal_strlit("sound_environment");
            assert(spec_group_from_name("sound_environment"@) == Some(TagGroup::SoundEnvironment));
        },
        TagGroup::SoundLooping => {
            reveal_strlit("actor_variant");
            reveal_strlit("damage_effect");
            reveal_strlit("point_physics");
            reveal_strlit("sound_looping");
            reveal_strlit("sound_scenery");
            assert("sound_looping"@[0] != "actor_variant"@[0]);
            assert("sound_looping"@[0] != "damage_effect"@[0]);
            assert("sound_looping"@[0] != "point_physics"@[0]);
            assert(spec_group_from_name("sound_looping"@) == Some(TagGroup::SoundLooping));
        },
        TagGroup::SoundScenery => {
            reveal_strlit("actor_variant");
            reveal_strlit("damage_effect");
            reveal_strlit("point_physics");
            reveal_strlit("sound_looping");
            reveal_strlit("sound_scenery");
            assert("sound_scenery"@[0] != "actor_variant"@[0]);
            assert("sound_scenery"@[0] != "damage_effect"@[0]);
            assert("sound_scenery"@[0] != "point_physics"@[0]);
            assert("sound_scenery"@[6] != "sound_looping"@[6]);
            assert(spec_group_from_name("sound_scenery"@) == Some(TagGroup::SoundScenery));
        },
        TagGroup::Spheroid => {
            reveal_strlit("contrail");
            reveal_strlit("dialogue");
            reveal_strlit("gbxmodel");
            reveal_strlit("particle");
            reveal_strlit("scenario");
            reveal_strlit("spheroid");
            assert("spheroid"@[0] != "contrail"@[0]);
            assert("spheroid"@[0] != "dialogue"@[0]);
            assert("spheroid"@[0] != "gbxmodel"@[0]);
            assert("spheroid"@[0] != "particle"@[0]);
            assert("spheroid"@[1] != "scenario"@[1]);
            assert(spec_group_from_name("spheroid"@) == Some(TagGroup::Spheroid));
        },
        TagGroup::StringList => {
            reveal_strlit("color_table");
            reveal_strlit("hud_globals");
            reveal_strlit("placeholder");
            reveal_strlit("string_list");
            reveal_strlit("vector_font");
            assert("string_list"@[0] != "color_table"@[0]);
            assert("string_list"@[0] != "hud_globals"@[0]);
            assert("string_list"@[0] != "placeholder"@[0]);
            assert(spec_group_from_name("string_list"@) == Some(TagGroup::StringList));
        },
        TagGroup::TagCollection => {
            reveal_strlit("device_control");
            reveal_strlit("device_machine");
            reveal_strlit("tag_collection");
            assert("tag_collection"@[0] != "device_control"@[0]);
            assert("tag_collection"@[0] != "device_machine"@[0]);
            assert(spec_group_from_name("tag_collection"@) == Some(TagGroup::TagCollection));
        },
        TagGroup::UIWidgetCollection => {
            reveal_strlit("device_light_fixture");
            reveal_strlit("ui_widget_collection");
            reveal_strlit("ui_widget_definition");
            reveal_strlit("weapon_hud_interface");
            assert("ui_widget_collection"@[0] != "device_light_fixture"@[0]);
            assert(spec_group_from_name("ui_widget_collection"@) == Some(TagGroup::UIWidgetCollection));
        },
        TagGroup::UIWidgetDefinition => {
            reveal_strlit("device_light_fixture");
            reveal_strlit("ui_widget_collection");
            reveal_strlit("ui_widget_definition");
            reveal_strlit("weapon_hud_interface");
            assert("ui_widget_definition"@[0] != "device_light_fixture"@[0]);
            assert("ui_widget_definition"@[10] != "ui_widget_collection"@[10]);
            assert(spec_group_from_name("ui_widget_definition"@) == Some(TagGroup::UIWidgetDefinition));
        },
        TagGroup::UnicodeStringList => {
            reveal_strlit("unicode_string_list");
            assert(spec_group_from_name("unicode_string_list"@) == Some(TagGroup::UnicodeStringList));
        },
        TagGroup::Unit => {
            reveal_strlit("flag");
            reveal_strlit("font");
            reveal_strlit("glow");
            reveal_strlit("item");
            reveal_strlit("unit");
            reveal_strlit("wind");
            assert("unit"@[0] != "flag"@[0]);
            assert("unit"@[0] != "font"@[0]);
            assert("unit"@[0] != "glow"@[0]);
            assert("unit"@[0] != "item"@[0]);
            assert(spec_group_from_name("unit"@) == Some(TagGroup::Unit));
        },
        TagGroup::UnitHUDInterface => {
            reveal_strlit("shader_environment");
            reveal_strlit("unit_hud_interface");
            assert("unit_hud_interface"@[0] != "shader_environment"@[0]);
            assert(spec_group_from_name("unit_hud_interface"@) == Some(TagGroup::UnitHUDInterface));
        },
        TagGroup::VectorFont => {
            reveal_strlit("color_table");
            reveal_strlit("hud_globals");
            reveal_strlit("placeholder");
            reveal_strlit("string_list");
            reveal_strlit("vector_font");
            assert("vector_font"@[0] != "color_table"@[0]);
            assert("vector_font"@[0] != "hud_globals"@[0]);
            assert("vector_font"@[0] != "placeholder"@[0]);
            assert("vector_font"@[0] != "string_list"@[0]);
            assert(spec_group_from_name("vector_font"@) == Some(TagGroup::VectorFont));
        },
        TagGroup::VectorFontData => {
            reveal_strlit("hud_message_text");
            reveal_strlit("material_effects");
            reveal_strlit("model_animations");
            reveal_strlit("vector_font_data");
            reveal_strlit("virtual_keyboard");
            assert("vector_font_data"@[0] != "hud_message_text"@[0]);
            assert("vector_font_data"@[0] != "material_effects"@[0]);
            assert("vector_font_data"@[0] != "model_animations"@[0]);
            assert(spec_group_from_name("vector_font_data"@) == Some(TagGroup::VectorFontData));
        },
        TagGroup::Vehicle => {
            reveal_strlit("antenna");
            reveal_strlit("garbage");
            reveal_strlit("globals");
            reveal_strlit("physics");
            reveal_strlit("scenery");
            reveal_strlit("vehicle");
            reveal_strlit("<unset>");
            assert("vehicle"@[0] != "antenna"@[0]);
            assert("vehicle"@[0] != "garbage"@[0]);
            assert("vehicle"@[0] != "globals"@[0]);
            assert("vehicle"@[0] != "physics"@[0]);
            assert("vehicle"@[0] != "scenery"@[0]);
            assert(spec_group_from_name("vehicle"@) == Some(TagGroup::Vehicle));
        },
        TagGroup::VirtualKeyboard => {
            reveal_strlit("hud_message_text");
            reveal_strlit("material_effects");
            reveal_strlit("model_animations");
            reveal_strlit("vector_font_data");
            reveal_strlit("virtual_keyboard");
            assert("virtual_keyboard"@[0] != "hud_message_text"@[0]);
            assert("virtual_keyboard"@[0] != "material_effects"@[0]);
            assert("virtual_keyboard"@[0] != "model_animations"@[0]);
            assert("virtual_keyboard"@[1] != "vector_font_data"@[1]);
            assert(spec_group_from_name("virtual_keyboard"@) == Some(TagGroup::VirtualKeyboard));
        },
        TagGroup::Weapon => {
            reveal_strlit("bitmap");
            reveal_strlit("device");
            reveal_strlit("effect");
            reveal_strlit("object");
            reveal_strlit("shader");
            reveal_strlit("weapon");
            assert("weapon"@[0] != "bitmap"@[0]);
            assert("weapon"@[0] != "device"@[0]);
            assert("weapon"@[0] != "effect"@[0]);
            assert("weapon"@[0] != "object"@[0]);
            assert("weapon"@[0] != "shader"@[0]);
            assert(spec_group_from_name("weapon"@) == Some(TagGroup::Weapon));
        },
        TagGroup::WeaponHUDInterface => {
            reveal_strlit("device_light_fixture");
            reveal_strlit("ui_widget_collection");
            reveal_strlit("ui_widget_definition");
            reveal_strlit("weapon_hud_interface");
            assert("weapon_hud_interface"@[0] != "device_light_fixture"@[0]);
            assert("weapon_hud_interface"@[0] != "ui_widget_collection"@[0]);
            assert("weapon_hud_interface"@[0] != "ui_widget_definition"@[0]);
            assert(spec_group_from_name("weapon_hud_interface"@) == Some(TagGroup::WeaponHUDInterface));
        },
        TagGroup::WeatherParticleSystem => {
            reveal_strlit("weather_particle_system");
            assert(spec_group_from_name("weather_particle_system"@) == Some(TagGroup::WeatherParticleSystem));
        },
        TagGroup::Wind => {
            reveal_strlit("flag");
            reveal_strlit("font");
            reveal_strlit("glow");
            reveal_strlit("item");
            reveal_strlit("unit");
            reveal_strlit("wind");
            assert("wind"@[0] != "flag"@[0]);
            assert("wind"@[0] != "font"@[0]);
            assert("wind"@[0] != "glow"@[0]);
            assert("wind"@[0] != "item"@[0]);
            assert("wind"@[0] != "unit"@[0]);
            assert(spec_group_from_name("wind"@) == Some(TagGroup::Wind));
        },
        TagGroup::_Unset => {
            reveal_strlit("antenna");
            reveal_strlit("garbage");
            reveal_strlit("globals");
            reveal_strlit("physics");
            reveal_strlit("scenery");
            reveal_strlit("vehicle");
            reveal_strlit("<unset>");
            assert("<unset>"@[0] != "antenna"@[0]);
            assert("<unset>"@[0] != "garbage"@[0]);
            assert("<unset>"@[0] != "globals"@[0]);
            assert("<unset>"@[0] != "physics"@[0]);
            assert("<unset>"@[0] != "scenery"@[0]);
            assert("<unset>"@[0] != "vehicle"@[0]);
            assert(spec_group_from_name("<unset>"@) == Some(TagGroup::_Unset));
        },
    }
}

/// Law: tag group names are distinct: two groups with the same name are the same group.
pub proof fn law_group_names_distinct(g: TagGroup, h: TagGroup)
    ensures
        spec_group_name(g) == spec_group_name(h) ==> g == h,
{
    lemma_group_from_own_name(g);
    lemma_group_from_own_name(h);
}

/// `spec_group_index` is the inverse of `spec_group_at` on the positions of the list.
proof fn lemma_group_at_index(j: int)
    requires
        0 <= j < TAG_GROUP_COUNT,
    ensures
        spec_group_index(spec_group_at(j)) == j,
{
}

/// Law: looking up a group's own name finds that group: it is the first group with that name, and no other group
/// has it.
pub proof fn law_group_name_lookup(g: TagGroup, h: TagGroup)
    ensures
        spec_group_named(g, spec_group_name(g)),
        spec_group_named(h, spec_group_name(g)) ==> h == g,
{
    law_group_names_distinct(g, h);
    assert forall|j: int| 0 <= j < spec_group_index(g) implies spec_group_name(#[trigger] spec_group_at(j)) != spec_group_name(g) by {
        lemma_group_index(g);
        lemma_group_at_index(j);
        law_group_names_distinct(spec_group_at(j), g);
    }
}

/// The full subgroup tree: the group, its parent and its grandparent, `_Unset` where there is none.
pub open spec fn spec_full_subgroup_tree(group: TagGroup) -> [TagGroup; 3] {
    match spec_subgroup(group) {
        Some(secondary) => [group, secondary, match spec_subgroup(secondary) {
            Some(tertiary) => tertiary,
            None => TagGroup::_Unset,
        }],
        None => [group, TagGroup::_Unset, TagGroup::_Unset],
    }
}

/// Distinct tag groups have distinct FourCCs.
pub proof fn lemma_fourcc_injective(a: TagGroup, b: TagGroup)
    ensures
        spec_group_fourcc(a) == spec_group_fourcc(b) ==> a == b,
{
}

/// The group at `index` in the alphabetical list of all groups.
pub open spec fn spec_group_at(index: int) -> TagGroup {
    if index == 0 {
        TagGroup::Actor
    } else     if index == 1 {
        TagGroup::ActorVariant
    } else     if index == 2 {
        TagGroup::Antenna
    } else     if index == 3 {
        TagGroup::Biped
    } else     if index == 4 {
        TagGroup::Bitmap
    } else     if index == 5 {
        TagGroup::CameraTrack
    } else     if index == 6 {
        TagGroup::ColorTable
    } else     if index == 7 {
        TagGroup::ContinuousDamageEffect
    } else     if index == 8 {
        TagGroup::Contrail
    } else     if index == 9 {
        TagGroup::DamageEffect
    } else     if index == 10 {
        TagGroup::Decal
    } else     if index == 11 {
        TagGroup::DetailObjectCollection
    } else     if index == 12 {
        TagGroup::Device
    } else     if index == 13 {
        TagGroup::DeviceControl
    } else     if index == 14 {
        TagGroup::DeviceLightFixture
    } else     if index == 15 {
        TagGroup::DeviceMachine
    } else     if index == 16 {
        TagGroup::Dialogue
    } else     if index == 17 {
        TagGroup::Effect
    } else     if index == 18 {
        TagGroup::Equipment
    } else     if index == 19 {
        TagGroup::Flag
    } else     if index == 20 {
        TagGroup::Fog
    } else     if index == 21 {
        TagGroup::Font
    } else     if index == 22 {
        TagGroup::Garbage
    } else     if index == 23 {
        TagGroup::GBXModel
    } else     if index == 24 {
        TagGroup::Globals
    } else     if index == 25 {
        TagGroup::Glow
    } else     if index == 26 {
        TagGroup::GrenadeHUDInterface
    } else     if index == 27 {
        TagGroup::HUDGlobals
    } else     if index == 28 {
        TagGroup::HUDMessageText
    } else     if index == 29 {
        TagGroup::HUDNumber
    } else     if index == 30 {
        TagGroup::InputDeviceDefaults
    } else     if index == 31 {
        TagGroup::Item
    } else     if index == 32 {
        TagGroup::ItemCollection
    } else     if index == 33 {
        TagGroup::LensFlare
    } else     if index == 34 {
        TagGroup::Light
    } else     if index == 35 {
        TagGroup::LightVolume
    } else     if index == 36 {
        TagGroup::Lightning
    } else     if index == 37 {
        TagGroup::MaterialEffects
    } else     if index == 38 {
        TagGroup::Meter
    } else     if index == 39 {
        TagGroup::Model
    } else     if index == 40 {
        TagGroup::ModelAnimations
    } else     if index == 41 {
        TagGroup::ModelCollisionGeometry
    } else     if index == 42 {
        TagGroup::MultiplayerScenarioDescription
    } else     if index == 43 {
        TagGroup::Object
    } else     if index == 44 {
        TagGroup::Particle
    } else     if index == 45 {
        TagGroup::ParticleSystem
    } else     if index == 46 {
        TagGroup::Physics
    } else     if index == 47 {
        TagGroup::Placeholder
    } else     if index == 48 {
        TagGroup::PointPhysics
    } else     if index == 49 {
        TagGroup::PreferencesNetworkGame
    } else     if index == 50 {
        TagGroup::Projectile
    } else     if index == 51 {
        TagGroup::Scenario
    } else     if index == 52 {
        TagGroup::ScenarioStructureBSP
    } else     if index == 53 {
        TagGroup::Scenery
    } else     if index == 54 {
        TagGroup::Shader
    } else     if index == 55 {
        TagGroup::ShaderEnvironment
    } else     if index == 56 {
        TagGroup::ShaderModel
    } else     if index == 57 {
        TagGroup::ShaderTransparentChicago
    } else     if index == 58 {
        TagGroup::ShaderTransparentChicagoExtended
    } else     if index == 59 {
        TagGroup::ShaderTransparentGeneric
    } else     if index == 60 {
        TagGroup::ShaderTransparentGlass
    } else     if index == 61 {
        TagGroup::ShaderTransparentMeter
    } else     if index == 62 {
        TagGroup::ShaderTransparentPlasma
    } else     if index == 63 {
        TagGroup::ShaderTransparentWater
    } else     if index == 64 {
        TagGroup::Sky
    } else     if index == 65 {
        TagGroup::Sound
    } else     if index == 66 {
        TagGroup::SoundEnvironment
    } else     if index == 67 {
        TagGroup::SoundLooping
    } else     if index == 68 {
        TagGroup::SoundScenery
    } else     if index == 69 {
        TagGroup::Spheroid
    } else     if index == 70 {
        TagGroup::StringList
    } else     if index == 71 {
        TagGroup::TagCollection
    } else     if index == 72 {
        TagGroup::UIWidgetCollection
    } else     if index == 73 {
        TagGroup::UIWidgetDefinition
    } else     if index == 74 {
        TagGroup::UnicodeStringList
    } else     if index == 75 {
        TagGroup::Unit
    } else     if index == 76 {
        TagGroup::UnitHUDInterface
    } else     if index == 77 {
        TagGroup::VectorFont
    } else     if index == 78 {
        TagGroup::VectorFontData
    } else     if index == 79 {
        TagGroup::Vehicle
    } else     if index == 80 {
        TagGroup::VirtualKeyboard
    } else     if index == 81 {
        TagGroup::Weapon
    } else     if index == 82 {
        TagGroup::WeaponHUDInterface
    } else     if index == 83 {
        TagGroup::WeatherParticleSystem
    } else     if index == 84 {
        TagGroup::Wind
    } else {
        TagGroup::_Unset
    }
}

/// `spec_group_at` is the inverse of `spec_group_index`.
pub proof fn lemma_group_index(g: TagGroup)
    ensures
        0 <= spec_group_index(g) < TAG_GROUP_COUNT,
        spec_group_at(spec_group_index(g)) == g,
{
}

/// Get the group at `index` in the alphabetical list of all groups.
pub fn group_at(index: usize) -> (r: TagGroup)
    requires
        index < TAG_GROUP_COUNT,
    ensures
        r == spec_group_at(index as int),
        spec_group_index(r) == index,
{
    match index {
        0 => TagGroup::Actor,
        1 => TagGroup::ActorVariant,
        2 => TagGroup::Antenna,
        3 => TagGroup::Biped,
        4 => TagGroup::Bitmap,
        5 => TagGroup::CameraTrack,
        6 => TagGroup::ColorTable,
        7 => TagGroup::ContinuousDamageEffect,
        8 => TagGroup::Contrail,
        9 => TagGroup::DamageEffect,
        10 => TagGroup::Decal,
        11 => TagGroup::DetailObjectCollection,
        12 => TagGroup::Device,
        13 => TagGroup::DeviceControl,
        14 => TagGroup::DeviceLightFixture,
        15 => TagGroup::DeviceMachine,
        16 => TagGroup::Dialogue,
        17 => TagGroup::Effect,
        18 => TagGroup::Equipment,
        19 => TagGroup::Flag,
        20 => TagGroup::Fog,
        21 => TagGroup::Font,
        22 => TagGroup::Garbage,
        23 => TagGroup::GBXModel,
        24 => TagGroup::Globals,
        25 => TagGroup::Glow,
        26 => TagGroup::GrenadeHUDInterface,
        27 => TagGroup::HUDGlobals,
        28 => TagGroup::HUDMessageText,
        29 => TagGroup::HUDNumber,
        30 => TagGroup::InputDeviceDefaults,
        31 => TagGroup::Item,
        32 => TagGroup::ItemCollection,
        33 => TagGroup::LensFlare,
        34 => TagGroup::Light,
        35 => TagGroup::LightVolume,
        36 => TagGroup::Lightning,
        37 => TagGroup::MaterialEffects,
        38 => TagGroup::Meter,
        39 => TagGroup::Model,
        40 => TagGroup::ModelAnimations,
        41 => TagGroup::ModelCollisionGeometry,
        42 => TagGroup::MultiplayerScenarioDescription,
        43 => TagGroup::Object,
        44 => TagGroup::Particle,
        45 => TagGroup::ParticleSystem,
        46 => TagGroup::Physics,
        47 => TagGroup::Placeholder,
        48 => TagGroup::PointPhysics,
        49 => TagGroup::PreferencesNetworkGame,
        50 => TagGroup::Projectile,
        51 => TagGroup::Scenario,
        52 => TagGroup::ScenarioStructureBSP,
        53 => TagGroup::Scenery,
        54 => TagGroup::Shader,
        55 => TagGroup::ShaderEnvironment,
        56 => TagGroup::ShaderModel,
        57 => TagGroup::ShaderTransparentChicago,
        58 => TagGroup::ShaderTransparentChicagoExtended,
        59 => TagGroup::ShaderTransparentGeneric,
        60 => TagGroup::ShaderTransparentGlass,
        61 => TagGroup::ShaderTransparentMeter,
        62 => TagGroup::ShaderTransparentPlasma,
        63 => TagGroup::ShaderTransparentWater,
        64 => TagGroup::Sky,
        65 => TagGroup::Sound,
        66 => TagGroup::SoundEnvironment,
        67 => TagGroup::SoundLooping,
        68 => TagGroup::SoundScenery,
        69 => TagGroup::Spheroid,
        70 => TagGroup::StringList,
        71 => TagGroup::TagCollection,
        72 => TagGroup::UIWidgetCollection,
        73 => TagGroup::UIWidgetDefinition,
        74 => TagGroup::UnicodeStringList,
        75 => TagGroup::Unit,
        76 => TagGroup::UnitHUDInterface,
        77 => TagGroup::VectorFont,
        78 => TagGroup::VectorFontData,
        79 => TagGroup::Vehicle,
        80 => TagGroup::VirtualKeyboard,
        81 => TagGroup::Weapon,
        82 => TagGroup::WeaponHUDInterface,
        83 => TagGroup::WeatherParticleSystem,
        84 => TagGroup::Wind,
        _ => TagGroup::_Unset,
    }
}

impl TryFrom<FourCC> for TagGroup {
    type Error = Error;

    fn try_from(value: FourCC) -> (r: RinghopperResult<TagGroup>) {
        match TagGroup::from_fourcc(value) {
            Some(group) => Ok(group),
            None => Err(Error::InvalidFourCC),
        }
    }
}

impl TryFromSpecImpl<FourCC> for TagGroup {
    open spec fn obeys_try_from_spec() -> bool {
        true
    }

    open spec fn try_from_spec(v: FourCC) -> RinghopperResult<TagGroup> {
        match spec_group_from_fourcc(v) {
            Some(group) => Ok(group),
            None => Err(Error::InvalidFourCC),
        }
    }
}

impl TagGroup {
    /// Get the string value of the tag group.
    ///
    /// This is, for example, used for file extensions.
    pub fn as_str(&self) -> (r: &'static str)
        ensures
            r@ == spec_group_name(*self),
    {
        match self {
            TagGroup::Actor => "actor",
            TagGroup::ActorVariant => "actor_variant",
            TagGroup::Antenna => "antenna",
            TagGroup::Biped => "biped",
            TagGroup::Bitmap => "bitmap",
            TagGroup::CameraTrack => "camera_track",
            TagGroup::ColorTable => "color_table",
            TagGroup::ContinuousDamageEffect => "continuous_damage_effect",
            TagGroup::Contrail => "contrail",
            TagGroup::DamageEffect => "damage_effect",
            TagGroup::Decal => "decal",
            TagGroup::DetailObjectCollection => "detail_object_collection",
            TagGroup::Device => "device",
            TagGroup::DeviceControl => "device_control",
            TagGroup::DeviceLightFixture => "device_light_fixture",
            TagGroup::DeviceMachine => "device_machine",
            TagGroup::Dialogue => "dialogue",
            TagGroup::Effect => "effect",
            TagGroup::Equipment => "equipment",
            TagGroup::Flag => "flag",
            TagGroup::Fog => "fog",
            TagGroup::Font => "font",
            TagGroup::Garbage => "garbage",
            TagGroup::GBXModel => "gbxmodel",
            TagGroup::Globals => "globals",
            TagGroup::Glow => "glow",
            TagGroup::GrenadeHUDInterface => "grenade_hud_interface",
            TagGroup::HUDGlobals => "hud_globals",
            TagGroup::HUDMessageText => "hud_message_text",
            TagGroup::HUDNumber => "hud_number",
            TagGroup::InputDeviceDefaults => "input_device_defaults",
            TagGroup::Item => "item",
            TagGroup::ItemCollection => "item_collection",
            TagGroup::LensFlare => "lens_flare",
            TagGroup::Light => "light",
            TagGroup::LightVolume => "light_volume",
            TagGroup::Lightning => "lightning",
            TagGroup::MaterialEffects => "material_effects",
            TagGroup::Meter => "meter",
            TagGroup::Model => "model",
            TagGroup::ModelAnimations => "model_animations",
            TagGroup::ModelCollisionGeometry => "model_collision_geometry",
            TagGroup::MultiplayerScenarioDescription => "multiplayer_scenario_description",
            TagGroup::Object => "object",
            TagGroup::Particle => "particle",
            TagGroup::ParticleSystem => "particle_system",
            TagGroup::Physics => "physics",
            TagGroup::Placeholder => "placeholder",
            TagGroup::PointPhysics => "point_physics",
            TagGroup::PreferencesNetworkGame => "preferences_network_game",
            TagGroup::Projectile => "projectile",
            TagGroup::Scenario => "scenario",
            TagGroup::ScenarioStructureBSP => "scenario_structure_bsp",
            TagGroup::Scenery => "scenery",
            TagGroup::Shader => "shader",
            TagGroup::ShaderEnvironment => "shader_environment",
            TagGroup::ShaderModel => "shader_model",
            TagGroup::ShaderTransparentChicago => "shader_transparent_chicago",
            TagGroup::ShaderTransparentChicagoExtended => "shader_transparent_chicago_extended",
            TagGroup::ShaderTransparentGeneric => "shader_transparent_generic",
            TagGroup::ShaderTransparentGlass => "shader_transparent_glass",
            TagGroup::ShaderTransparentMeter => "shader_transparent_meter",
            TagGroup::ShaderTransparentPlasma => "shader_transparent_plasma",
            TagGroup::ShaderTransparentWater => "shader_transparent_water",
            TagGroup::Sky => "sky",
            TagGroup::Sound => "sound",
            TagGroup::SoundEnvironment => "sound_environment",
            TagGroup::SoundLooping => "sound_looping",
            TagGroup::SoundScenery => "sound_scenery",
            TagGroup::Spheroid => "spheroid",
            TagGroup::StringList => "string_list",
            TagGroup::TagCollection => "tag_collection",
            TagGroup::UIWidgetCollection => "ui_widget_collection",
            TagGroup::UIWidgetDefinition => "ui_widget_definition",
            TagGroup::UnicodeStringList => "unicode_string_list",
            TagGroup::Unit => "unit",
            TagGroup::UnitHUDInterface => "unit_hud_interface",
            TagGroup::VectorFont => "vector_font",
            TagGroup::VectorFontData => "vector_font_data",
            TagGroup::Vehicle => "vehicle",
            TagGroup::VirtualKeyboard => "virtual_keyboard",
            TagGroup::Weapon => "weapon",
            TagGroup::WeaponHUDInterface => "weapon_hud_interface",
            TagGroup::WeatherParticleSystem => "weather_particle_system",
            TagGroup::Wind => "wind",
            TagGroup::_Unset => "<unset>",
        }
    }

    /// Get the FourCC value of the tag group.
    pub fn as_fourcc(&self) -> (r: FourCC)
        ensures
            r == spec_group_fourcc(*self),
    {
        match self {
            TagGroup::Actor => 0x61637472,
            TagGroup::ActorVariant => 0x61637476,
            TagGroup::Antenna => 0x616E7421,
            TagGroup::Biped => 0x62697064,
            TagGroup::Bitmap => 0x6269746D,
            TagGroup::CameraTrack => 0x7472616B,
            TagGroup::ColorTable => 0x636F6C6F,
            TagGroup::ContinuousDamageEffect => 0x63646D67,
            TagGroup::Contrail => 0x636F6E74,
            TagGroup::DamageEffect => 0x6A707421,
            TagGroup::Decal => 0x64656361,
            TagGroup::DetailObjectCollection => 0x646F6263,
            TagGroup::Device => 0x64657669,
            TagGroup::DeviceControl => 0x6374726C,
            TagGroup::DeviceLightFixture => 0x6C696669,
            TagGroup::DeviceMachine => 0x6D616368,
            TagGroup::Dialogue => 0x75646C67,
            TagGroup::Effect => 0x65666665,
            TagGroup::Equipment => 0x65716970,
            TagGroup::Flag => 0x666C6167,
            TagGroup::Fog => 0x666F6720,
            TagGroup::Font => 0x666F6E74,
            TagGroup::Garbage => 0x67617262,
            TagGroup::GBXModel => 0x6D6F6432,
            TagGroup::Globals => 0x6D617467,
            TagGroup::Glow => 0x676C7721,
            TagGroup::GrenadeHUDInterface => 0x67726869,
            TagGroup::HUDGlobals => 0x68756467,
            TagGroup::HUDMessageText => 0x686D7420,
            TagGroup::HUDNumber => 0x68756423,
            TagGroup::InputDeviceDefaults => 0x64657663,
            TagGroup::Item => 0x6974656D,
            TagGroup::ItemCollection => 0x69746D63,
            TagGroup::LensFlare => 0x6C656E73,
            TagGroup::Light => 0x6C696768,
            TagGroup::LightVolume => 0x6D677332,
            TagGroup::Lightning => 0x656C6563,
            TagGroup::MaterialEffects => 0x666F6F74,
            TagGroup::Meter => 0x6D657472,
            TagGroup::Model => 0x6D6F6465,
            TagGroup::ModelAnimations => 0x616E7472,
            TagGroup::ModelCollisionGeometry => 0x636F6C6C,
            TagGroup::MultiplayerScenarioDescription => 0x6D706C79,
            TagGroup::Object => 0x6F626A65,
            TagGroup::Particle => 0x70617274,
            TagGroup::ParticleSystem => 0x7063746C,
            TagGroup::Physics => 0x70687973,
            TagGroup::Placeholder => 0x706C6163,
            TagGroup::PointPhysics => 0x70706879,
            TagGroup::PreferencesNetworkGame => 0x6E677072,
            TagGroup::Projectile => 0x70726F6A,
            TagGroup::Scenario => 0x73636E72,
            TagGroup::ScenarioStructureBSP => 0x73627370,
            TagGroup::Scenery => 0x7363656E,
            TagGroup::Shader => 0x73686472,
            TagGroup::ShaderEnvironment => 0x73656E76,
            TagGroup::ShaderModel => 0x736F736F,
            TagGroup::ShaderTransparentChicago => 0x73636869,
            TagGroup::ShaderTransparentChicagoExtended => 0x73636578,
            TagGroup::ShaderTransparentGeneric => 0x736F7472,
            TagGroup::ShaderTransparentGlass => 0x73676C61,
            TagGroup::ShaderTransparentMeter => 0x736D6574,
            TagGroup::ShaderTransparentPlasma => 0x73706C61,
            TagGroup::ShaderTransparentWater => 0x73776174,
            TagGroup::Sky => 0x736B7920,
            TagGroup::Sound => 0x736E6421,
            TagGroup::SoundEnvironment => 0x736E6465,
            TagGroup::SoundLooping => 0x6C736E64,
            TagGroup::SoundScenery => 0x73736365,
            TagGroup::Spheroid => 0x626F6F6D,
            TagGroup::StringList => 0x73747223,
            TagGroup::TagCollection => 0x74616763,
            TagGroup::UIWidgetCollection => 0x536F756C,
            TagGroup::UIWidgetDefinition => 0x44654C61,
            TagGroup::UnicodeStringList => 0x75737472,
            TagGroup::Unit => 0x756E6974,
            TagGroup::UnitHUDInterface => 0x756E6869,
            TagGroup::VectorFont => 0x76666E74,
            TagGroup::VectorFontData => 0x76666E64,
            TagGroup::Vehicle => 0x76656869,
            TagGroup::VirtualKeyboard => 0x76636B79,
            TagGroup::Weapon => 0x77656170,
            TagGroup::WeaponHUDInterface => 0x77706869,
            TagGroup::WeatherParticleSystem => 0x7261696E,
            TagGroup::Wind => 0x77696E64,
            TagGroup::_Unset => 0x00000000,
        }
    }

    /// Convert the `FourCC` value to a tag group if it exists.
    ///
    /// Returns `None` if no such tag group exists. `0xFFFFFFFF` is read as [`TagGroup::_Unset`].
    pub fn from_fourcc(fourcc: FourCC) -> (r: Option<TagGroup>)
        ensures
            r == spec_group_from_fourcc(fourcc),
    {
        let r = match fourcc {
            0x61637472 => Some(TagGroup::Actor),
            0x61637476 => Some(TagGroup::ActorVariant),
            0x616E7421 => Some(TagGroup::Antenna),
            0x62697064 => Some(TagGroup::Biped),
            0x6269746D => Some(TagGroup::Bitmap),
            0x7472616B => Some(TagGroup::CameraTrack),
            0x636F6C6F => Some(TagGroup::ColorTable),
            0x63646D67 => Some(TagGroup::ContinuousDamageEffect),
            0x636F6E74 => Some(TagGroup::Contrail),
            0x6A707421 => Some(TagGroup::DamageEffect),
            0x64656361 => Some(TagGroup::Decal),
            0x646F6263 => Some(TagGroup::DetailObjectCollection),
            0x64657669 => Some(TagGroup::Device),
            0x6374726C => Some(TagGroup::DeviceControl),
            0x6C696669 => Some(TagGroup::DeviceLightFixture),
            0x6D616368 => Some(TagGroup::DeviceMachine),
            0x75646C67 => Some(TagGroup::Dialogue),
            0x65666665 => Some(TagGroup::Effect),
            0x65716970 => Some(TagGroup::Equipment),
            0x666C6167 => Some(TagGroup::Flag),
            0x666F6720 => Some(TagGroup::Fog),
            0x666F6E74 => Some(TagGroup::Font),
            0x67617262 => Some(TagGroup::Garbage),
            0x6D6F6432 => Some(TagGroup::GBXModel),
            0x6D617467 => Some(TagGroup::Globals),
            0x676C7721 => Some(TagGroup::Glow),
            0x67726869 => Some(TagGroup::GrenadeHUDInterface),
            0x68756467 => Some(TagGroup::HUDGlobals),
            0x686D7420 => Some(TagGroup::HUDMessageText),
            0x68756423 => Some(TagGroup::HUDNumber),
            0x64657663 => Some(TagGroup::InputDeviceDefaults),
            0x6974656D => Some(TagGroup::Item),
            0x69746D63 => Some(TagGroup::ItemCollection),
            0x6C656E73 => Some(TagGroup::LensFlare),
            0x6C696768 => Some(TagGroup::Light),
            0x6D677332 => Some(TagGroup::LightVolume),
            0x656C6563 => Some(TagGroup::Lightning),
            0x666F6F74 => Some(TagGroup::MaterialEffects),
            0x6D657472 => Some(TagGroup::Meter),
            0x6D6F6465 => Some(TagGroup::Model),
            0x616E7472 => Some(TagGroup::ModelAnimations),
            0x636F6C6C => Some(TagGroup::ModelCollisionGeometry),
            0x6D706C79 => Some(TagGroup::MultiplayerScenarioDescription),
            0x6F626A65 => Some(TagGroup::Object),
            0x70617274 => Some(TagGroup::Particle),
            0x7063746C => Some(TagGroup::ParticleSystem),
            0x70687973 => Some(TagGroup::Physics),
            0x706C6163 => Some(TagGroup::Placeholder),
            0x70706879 => Some(TagGroup::PointPhysics),
            0x6E677072 => Some(TagGroup::PreferencesNetworkGame),
            0x70726F6A => Some(TagGroup::Projectile),
            0x73636E72 => Some(TagGroup::Scenario),
            0x73627370 => Some(TagGroup::ScenarioStructureBSP),
            0x7363656E => Some(TagGroup::Scenery),
            0x73686472 => Some(TagGroup::Shader),
            0x73656E76 => Some(TagGroup::ShaderEnvironment),
            0x736F736F => Some(TagGroup::ShaderModel),
            0x73636869 => Some(TagGroup::ShaderTransparentChicago),
            0x73636578 => Some(TagGroup::ShaderTransparentChicagoExtended),
            0x736F7472 => Some(TagGroup::ShaderTransparentGeneric),
            0x73676C61 => Some(TagGroup::ShaderTransparentGlass),
            0x736D6574 => Some(TagGroup::ShaderTransparentMeter),
            0x73706C61 => Some(TagGroup::ShaderTransparentPlasma),
            0x73776174 => Some(TagGroup::ShaderTransparentWater),
            0x736B7920 => Some(TagGroup::Sky),
            0x736E6421 => Some(TagGroup::Sound),
            0x736E6465 => Some(TagGroup::SoundEnvironment),
            0x6C736E64 => Some(TagGroup::SoundLooping),
            0x73736365 => Some(TagGroup::SoundScenery),
            0x626F6F6D => Some(TagGroup::Spheroid),
            0x73747223 => Some(TagGroup::StringList),
            0x74616763 => Some(TagGroup::TagCollection),
            0x536F756C => Some(TagGroup::UIWidgetCollection),
            0x44654C61 => Some(TagGroup::UIWidgetDefinition),
            0x75737472 => Some(TagGroup::UnicodeStringList),
            0x756E6974 => Some(TagGroup::Unit),
            0x756E6869 => Some(TagGroup::UnitHUDInterface),
            0x76666E74 => Some(TagGroup::VectorFont),
            0x76666E64 => Some(TagGroup::VectorFontData),
            0x76656869 => Some(TagGroup::Vehicle),
            0x76636B79 => Some(TagGroup::VirtualKeyboard),
            0x77656170 => Some(TagGroup::Weapon),
            0x77706869 => Some(TagGroup::WeaponHUDInterface),
            0x7261696E => Some(TagGroup::WeatherParticleSystem),
            0x77696E64 => Some(TagGroup::Wind),
            0x00000000 => Some(TagGroup::_Unset),
            0xFFFFFFFF => Some(TagGroup::_Unset),
            _ => None,
        };
        proof {
            match r {
                Some(g) => {
                    if spec_group_fourcc(g) == fourcc {
                        let h = choose|h: TagGroup| spec_group_fourcc(h) == fourcc;
                        lemma_fourcc_injective(g, h);
                    } else {
                        assert forall|h: TagGroup| spec_group_fourcc(h) != fourcc by {}
                    }
                },
                None => {
                    assert forall|h: TagGroup| spec_group_fourcc(h) != fourcc by {}
                },
            }
        }
        r
    }

    /// Get the group this tag group is a subgroup of, if there is one.
    pub fn subgroup(self) -> (r: Option<TagGroup>)
        ensures
            r == spec_subgroup(self),
    {
        match self {
            TagGroup::Unit => Some(TagGroup::Object),
            TagGroup::Item => Some(TagGroup::Object),
            TagGroup::Device => Some(TagGroup::Object),
            TagGroup::Biped => Some(TagGroup::Unit),
            TagGroup::Vehicle => Some(TagGroup::Unit),
            TagGroup::Weapon => Some(TagGroup::Item),
            TagGroup::Garbage => Some(TagGroup::Item),
            TagGroup::Equipment => Some(TagGroup::Item),
            TagGroup::DeviceMachine => Some(TagGroup::Device),
            TagGroup::DeviceControl => Some(TagGroup::Device),
            TagGroup::DeviceLightFixture => Some(TagGroup::Device),
            TagGroup::Projectile => Some(TagGroup::Object),
            TagGroup::Scenery => Some(TagGroup::Object),
            TagGroup::Placeholder => Some(TagGroup::Object),
            TagGroup::SoundScenery => Some(TagGroup::Object),
            TagGroup::ShaderModel => Some(TagGroup::Shader),
            TagGroup::ShaderEnvironment => Some(TagGroup::Shader),
            TagGroup::ShaderTransparentChicago => Some(TagGroup::Shader),
            TagGroup::ShaderTransparentChicagoExtended => Some(TagGroup::Shader),
            TagGroup::ShaderTransparentGeneric => Some(TagGroup::Shader),
            TagGroup::ShaderTransparentGlass => Some(TagGroup::Shader),
            TagGroup::ShaderTransparentMeter => Some(TagGroup::Shader),
            TagGroup::ShaderTransparentPlasma => Some(TagGroup::Shader),
            TagGroup::ShaderTransparentWater => Some(TagGroup::Shader),
            _ => None,
        }
    }

    /// Get all subgroups for this tag.
    ///
    /// Any unset tag group will be [`TagGroup::_Unset`].
    pub fn full_subgroup_tree(self) -> (r: [TagGroup; 3])
        ensures
            r == spec_full_subgroup_tree(self),
    {
        let primary = self;
        let (secondary, tertiary) = match primary.subgroup() {
            Some(secondary) => (secondary, match secondary.subgroup() {
                Some(tertiary) => tertiary,
                None => TagGroup::_Unset,
            }),
            None => (TagGroup::_Unset, TagGroup::_Unset),
        };
        [primary, secondary, tertiary]
    }

    /// Convert the string value to a tag group if it exists.
    ///
    /// Returns [`Error::NoSuchTagGroup`] if `str` doesn't correspond to a group. The name of
    /// [`TagGroup::_Unset`] names no group: an unset group is invalid at runtime.
    pub fn from_str(str: &str) -> (r: RinghopperResult<TagGroup>)
        ensures
            r is Ok <==> (exists|g: TagGroup| g != TagGroup::_Unset && spec_group_name(g) == str@),
            r matches Ok(g) ==> g != TagGroup::_Unset && spec_group_named(g, str@),
            r matches Err(e) ==> e == Error::NoSuchTagGroup,
    {
        let wanted = chars_of(str);
        let mut i: usize = 0;
        while i < TAG_GROUP_COUNT - 1
            invariant
                i <= TAG_GROUP_COUNT - 1,
                wanted@ == str@,
                forall|j: int| 0 <= j < i ==> spec_group_name(#[trigger] spec_group_at(j)) != str@,
            decreases TAG_GROUP_COUNT - 1 - i,
        {
            let group = group_at(i);
            let name = chars_of(group.as_str());
            if chars_eq(name.as_slice(), wanted.as_slice()) {
                return Ok(group);
            }
            i = i + 1;
        }
        proof {
            assert forall|g: TagGroup| g != TagGroup::_Unset implies spec_group_name(g) != str@ by {
                lemma_group_index(g);
                assert(spec_group_name(spec_group_at(spec_group_index(g))) != str@);
            }
        }
        Err(Error::NoSuchTagGroup)
    }
}

impl SimpleTagData for TagGroup {
    open spec fn spec_simple_size() -> nat {
        4
    }

    open spec fn spec_read(big: bool, data: Seq<u8>, at: int, struct_end: int) -> RinghopperResult<TagGroup> {
        match spec_read_bytes(data, at, 4, |b: Seq<u8>| spec_u32_from_bytes(big, b)) {
            Ok(v) => match spec_group_from_fourcc(v) {
                Some(g) => Ok(g),
                None => Err(Error::InvalidFourCC),
            },
            Err(e) => Err(e),
        }
    }

    open spec fn spec_encode(self, big: bool) -> RinghopperResult<Seq<u8>> {
        Ok(spec_u32_to_bytes(big, spec_group_fourcc(self)))
    }

    fn simple_size() -> (r: usize) {
        4
    }

    fn read<B: ByteOrder>(data: &[u8], at: usize, struct_end: usize) -> (r: RinghopperResult<TagGroup>) {
        let v = u32::read::<B>(data, at, struct_end)?;
        match TagGroup::from_fourcc(v) {
            Some(g) => Ok(g),
            None => Err(Error::InvalidFourCC),
        }
    }

    fn write<B: ByteOrder>(&self, data: &mut [u8], at: usize, struct_end: usize) -> (r: RinghopperResult<()>) {
        self.as_fourcc().write::<B>(data, at, struct_end)
    }
}

/// Law: a tag group's FourCC maps back to the tag group.
pub proof fn law_fourcc_roundtrip(group: TagGroup)
    ensures
        spec_group_from_fourcc(spec_group_fourcc(group)) == Some(group),
{
    let h = choose|h: TagGroup| spec_group_fourcc(h) == spec_group_fourcc(group);
    lemma_fourcc_injective(group, h);
}

/// Only one group is the first one with a given name.
pub proof fn lemma_group_named_unique(a: TagGroup, b: TagGroup, name: Seq<char>)
    requires
        spec_group_named(a, name),
        spec_group_named(b, name),
    ensures
        a == b,
{
    lemma_group_index(a);
    lemma_group_index(b);
    if spec_group_index(a) < spec_group_index(b) {
        assert(spec_group_name(spec_group_at(spec_group_index(a))) != name);
    } else if spec_group_index(b) < spec_group_index(a) {
        assert(spec_group_name(spec_group_at(spec_group_index(b))) != name);
    } else {
        lemma_group_index_injective(a, b);
    }
}

/// Distinct groups have distinct positions.
pub proof fn lemma_group_index_injective(a: TagGroup, b: TagGroup)
    requires
        spec_group_index(a) == spec_group_index(b),
    ensures
        a == b,
{
    lemma_group_index(a);
    lemma_group_index(b);
}

} // verus!
