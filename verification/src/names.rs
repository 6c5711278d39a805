//! The fixed table of reserved engine names. A name on the wire is either a
//! hardcoded id into this table or an inline length-prefixed string.

use vstd::prelude::*;

verus! {

/// Whether `id` is a reserved engine name id.
pub open spec fn unreal_name_known(id: u32) -> bool {
    match id {
        0 | 1 | 2 | 3 | 4 | 5 | 6 | 7 | 8 | 9 | 10 | 11 |
        12 | 13 | 14 | 15 | 16 | 18 | 19 | 20 | 21 | 22 | 23 | 25 |
        26 | 28 | 29 | 30 | 31 | 32 | 33 | 34 | 50 | 51 | 52 | 53 |
        54 | 55 | 56 | 57 | 58 | 59 | 60 | 61 | 62 | 63 | 64 | 65 |
        66 | 67 | 68 | 69 | 70 | 71 | 100 | 101 | 102 | 103 | 104 | 105 |
        106 | 107 | 200 | 201 | 202 | 203 | 204 | 205 | 206 | 207 | 208 | 209 |
        210 | 211 | 212 | 213 | 214 | 215 | 216 | 217 | 218 | 219 | 220 | 221 |
        222 | 223 | 224 | 225 | 226 | 227 | 230 | 231 | 232 | 233 | 234 | 235 |
        236 | 237 | 238 | 239 | 240 | 241 | 242 | 243 | 244 | 245 | 246 | 247 |
        248 | 249 | 250 | 251 | 252 | 253 | 254 | 255 | 256 | 257 | 258 | 280 |
        281 | 282 | 283 | 284 | 285 | 286 | 287 | 288 | 289 | 290 | 291 | 292 |
        293 | 300 | 301 | 302 | 303 | 311 | 312 | 320 | 322 | 325 | 350 | 351 |
        352 | 353 | 354 | 355 | 356 | 400 | 401 | 402 | 403 | 404 | 405 | 406 |
        407 | 408 | 409 | 410 | 450 | 451 | 500 | 600 | 601 | 602 => true,
        _ => false,
    }
}

/// The textual identity of the reserved engine name `id`.
pub open spec fn unreal_name_text(id: u32) -> Seq<char> {
    match id {
        0 => "None"@,
        1 => "ByteProperty"@,
        2 => "IntProperty"@,
        3 => "BoolProperty"@,
        4 => "FloatProperty"@,
        5 => "ObjectProperty"@,
        6 => "NameProperty"@,
        7 => "DelegateProperty"@,
        8 => "DoubleProperty"@,
        9 => "ArrayProperty"@,
        10 => "StructProperty"@,
        11 => "VectorProperty"@,
        12 => "RotatorProperty"@,
        13 => "StrProperty"@,
        14 => "TextProperty"@,
        15 => "InterfaceProperty"@,
        16 => "MulticastDelegateProperty"@,
        18 => "LazyObjectProperty"@,
        19 => "SoftObjectProperty"@,
        20 => "UInt64Property"@,
        21 => "UInt32Property"@,
        22 => "UInt16Property"@,
        23 => "Int64Property"@,
        25 => "Int16Property"@,
        26 => "Int8Property"@,
        28 => "MapProperty"@,
        29 => "SetProperty"@,
        30 => "Core"@,
        31 => "Engine"@,
        32 => "Editor"@,
        33 => "CoreUObject"@,
        34 => "EnumProperty"@,
        50 => "Cylinder"@,
        51 => "BoxSphereBounds"@,
        52 => "Sphere"@,
        53 => "Box"@,
        54 => "Vector2D"@,
        55 => "IntRect"@,
        56 => "IntPoint"@,
        57 => "Vector4"@,
        58 => "Name"@,
        59 => "Vector"@,
        60 => "Rotator"@,
        61 => "SHVector"@,
        62 => "Color"@,
        63 => "Plane"@,
        64 => "Matrix"@,
        65 => "LinearColor"@,
        66 => "AdvanceFrame"@,
        67 => "Pointer"@,
        68 => "Double"@,
        69 => "Quat"@,
        70 => "UESelf"@,
        71 => "Transform"@,
        100 => "Object"@,
        101 => "Camera"@,
        102 => "Actor"@,
        103 => "ObjectRedirector"@,
        104 => "ObjectArchetype"@,
        105 => "Class"@,
        106 => "ScriptStruct"@,
        107 => "Function"@,
        200 => "State"@,
        201 => "TRUE"@,
        202 => "FALSE"@,
        203 => "Enum"@,
        204 => "Default"@,
        205 => "Skip"@,
        206 => "Input"@,
        207 => "Package"@,
        208 => "Groups"@,
        209 => "Interface"@,
        210 => "Components"@,
        211 => "Global"@,
        212 => "Super"@,
        213 => "Outer"@,
        214 => "Map"@,
        215 => "Role"@,
        216 => "RemoteRole"@,
        217 => "PersistentLevel"@,
        218 => "TheWorld"@,
        219 => "PackageMetaData"@,
        220 => "InitialState"@,
        221 => "Game"@,
        222 => "SelectionColor"@,
        223 => "UI"@,
        224 => "ExecuteUbergraph"@,
        225 => "DeviceID"@,
        226 => "RootStat"@,
        227 => "MoveActor"@,
        230 => "All"@,
        231 => "MeshEmitterVertexColor"@,
        232 => "TextureOffsetParameter"@,
        233 => "TextureScaleParameter"@,
        234 => "ImpactVel"@,
        235 => "SlideVel"@,
        236 => "TextureOffset1Parameter"@,
        237 => "MeshEmitterDynamicParameter"@,
        238 => "ExpressionInput"@,
        239 => "Untitled"@,
        240 => "Timer"@,
        241 => "Team"@,
        242 => "Low"@,
        243 => "High"@,
        244 => "NetworkGUID"@,
        245 => "GameThread"@,
        246 => "RenderThread"@,
        247 => "OtherChildren"@,
        248 => "Location"@,
        249 => "Rotation"@,
        250 => "BSP"@,
        251 => "EditorSettings"@,
        252 => "AudioThread"@,
        253 => "ID"@,
        254 => "UserDefinedEnum"@,
        255 => "Control"@,
        256 => "Voice"@,
        257 => "Zlib"@,
        258 => "Gzip"@,
        280 => "DGram"@,
        281 => "Stream"@,
        282 => "GameNetDriver"@,
        283 => "PendingNetDriver"@,
        284 => "BeaconNetDriver"@,
        285 => "FlushNetDormancy"@,
        286 => "DemoNetDriver"@,
        287 => "GameSession"@,
        288 => "PartySession"@,
        289 => "GamePort"@,
        290 => "BeaconPort"@,
        291 => "MeshPort"@,
        292 => "MeshNetDriver"@,
        293 => "LiveStreamVoice"@,
        300 => "Linear"@,
        301 => "Point"@,
        302 => "Aniso"@,
        303 => "LightMapResolution"@,
        311 => "UnGrouped"@,
        312 => "VoiceChat"@,
        320 => "Playing"@,
        322 => "Spectating"@,
        325 => "Inactive"@,
        350 => "PerfWarning"@,
        351 => "Info"@,
        352 => "Init"@,
        353 => "Exit"@,
        354 => "Cmd"@,
        355 => "Warning"@,
        356 => "Error"@,
        400 => "FontCharacter"@,
        401 => "InitChild2StartBone"@,
        402 => "SoundCueLocalized"@,
        403 => "SoundCue"@,
        404 => "RawDistributionFloat"@,
        405 => "RawDistributionVector"@,
        406 => "InterpCurveFloat"@,
        407 => "InterpCurveVector2D"@,
        408 => "InterpCurveVector"@,
        409 => "InterpCurveTwoVectors"@,
        410 => "InterpCurveQuat"@,
        450 => "AI"@,
        451 => "NavMesh"@,
        500 => "PerformanceCapture"@,
        600 => "EditorLayout"@,
        601 => "EditorKeyBindings"@,
        602 => "GameUserSettings"@,
        _ => Seq::empty(),
    }
}

/// Looks a hardcoded name id up in the engine table.
pub fn hardcoded_name(id: u32) -> (r: Option<&'static str>)
    ensures
        r is Some <==> unreal_name_known(id),
        r matches Some(s) ==> s@ == unreal_name_text(id),
{
    match id {
        0 => Some("None"),
        1 => Some("ByteProperty"),
        2 => Some("IntProperty"),
        3 => Some("BoolProperty"),
        4 => Some("FloatProperty"),
        5 => Some("ObjectProperty"),
        6 => Some("NameProperty"),
        7 => Some("DelegateProperty"),
        8 => Some("DoubleProperty"),
        9 => Some("ArrayProperty"),
        10 => Some("StructProperty"),
        11 => Some("VectorProperty"),
        12 => Some("RotatorProperty"),
        13 => Some("StrProperty"),
        14 => Some("TextProperty"),
        15 => Some("InterfaceProperty"),
        16 => Some("MulticastDelegateProperty"),
        18 => Some("LazyObjectProperty"),
        19 => Some("SoftObjectProperty"),
        20 => Some("UInt64Property"),
        21 => Some("UInt32Property"),
        22 => Some("UInt16Property"),
        23 => Some("Int64Property"),
        25 => Some("Int16Property"),
        26 => Some("Int8Property"),
        28 => Some("MapProperty"),
        29 => Some("SetProperty"),
        30 => Some("Core"),
        31 => Some("Engine"),
        32 => Some("Editor"),
        33 => Some("CoreUObject"),
        34 => Some("EnumProperty"),
        50 => Some("Cylinder"),
        51 => Some("BoxSphereBounds"),
        52 => Some("Sphere"),
        53 => Some("Box"),
        54 => Some("Vector2D"),
        55 => Some("IntRect"),
        56 => Some("IntPoint"),
        57 => Some("Vector4"),
        58 => Some("Name"),
        59 => Some("Vector"),
        60 => Some("Rotator"),
        61 => Some("SHVector"),
        62 => Some("Color"),
        63 => Some("Plane"),
        64 => Some("Matrix"),
        65 => Some("LinearColor"),
        66 => Some("AdvanceFrame"),
        67 => Some("Pointer"),
        68 => Some("Double"),
        69 => Some("Quat"),
        70 => Some("UESelf"),
        71 => Some("Transform"),
        100 => Some("Object"),
        101 => Some("Camera"),
        102 => Some("Actor"),
        103 => Some("ObjectRedirector"),
        104 => Some("ObjectArchetype"),
        105 => Some("Class"),
        106 => Some("ScriptStruct"),
        107 => Some("Function"),
        200 => Some("State"),
        201 => Some("TRUE"),
        202 => Some("FALSE"),
        203 => Some("Enum"),
        204 => Some("Default"),
        205 => Some("Skip"),
        206 => Some("Input"),
        207 => Some("Package"),
        208 => Some("Groups"),
        209 => Some("Interface"),
        210 => Some("Components"),
        211 => Some("Global"),
        212 => Some("Super"),
        213 => Some("Outer"),
        214 => Some("Map"),
        215 => Some("Role"),
        216 => Some("RemoteRole"),
        217 => Some("PersistentLevel"),
        218 => Some("TheWorld"),
        219 => Some("PackageMetaData"),
        220 => Some("InitialState"),
        221 => Some("Game"),
        222 => Some("SelectionColor"),
        223 => Some("UI"),
        224 => Some("ExecuteUbergraph"),
        225 => Some("DeviceID"),
        226 => Some("RootStat"),
        227 => Some("MoveActor"),
        230 => Some("All"),
        231 => Some("MeshEmitterVertexColor"),
        232 => Some("TextureOffsetParameter"),
        233 => Some("TextureScaleParameter"),
        234 => Some("ImpactVel"),
        235 => Some("SlideVel"),
        236 => Some("TextureOffset1Parameter"),
        237 => Some("MeshEmitterDynamicParameter"),
        238 => Some("ExpressionInput"),
        239 => Some("Untitled"),
        240 => Some("Timer"),
        241 => Some("Team"),
        242 => Some("Low"),
        243 => Some("High"),
        244 => Some("NetworkGUID"),
        245 => Some("GameThread"),
        246 => Some("RenderThread"),
        247 => Some("OtherChildren"),
        248 => Some("Location"),
        249 => Some("Rotation"),
        250 => Some("BSP"),
        251 => Some("EditorSettings"),
        252 => Some("AudioThread"),
        253 => Some("ID"),
        254 => Some("UserDefinedEnum"),
        255 => Some("Control"),
        256 => Some("Voice"),
        257 => Some("Zlib"),
        258 => Some("Gzip"),
        280 => Some("DGram"),
        281 => Some("Stream"),
        282 => Some("GameNetDriver"),
        283 => Some("PendingNetDriver"),
        284 => Some("BeaconNetDriver"),
        285 => Some("FlushNetDormancy"),
        286 => Some("DemoNetDriver"),
        287 => Some("GameSession"),
        288 => Some("PartySession"),
        289 => Some("GamePort"),
        290 => Some("BeaconPort"),
        291 => Some("MeshPort"),
        292 => Some("MeshNetDriver"),
        293 => Some("LiveStreamVoice"),
        300 => Some("Linear"),
        301 => Some("Point"),
        302 => Some("Aniso"),
        303 => Some("LightMapResolution"),
        311 => Some("UnGrouped"),
        312 => Some("VoiceChat"),
        320 => Some("Playing"),
        322 => Some("Spectating"),
        325 => Some("Inactive"),
        350 => Some("PerfWarning"),
        351 => Some("Info"),
        352 => Some("Init"),
        353 => Some("Exit"),
        354 => Some("Cmd"),
        355 => Some("Warning"),
        356 => Some("Error"),
        400 => Some("FontCharacter"),
        401 => Some("InitChild2StartBone"),
        402 => Some("SoundCueLocalized"),
        403 => Some("SoundCue"),
        404 => Some("RawDistributionFloat"),
        405 => Some("RawDistributionVector"),
        406 => Some("InterpCurveFloat"),
        407 => Some("InterpCurveVector2D"),
        408 => Some("InterpCurveVector"),
        409 => Some("InterpCurveTwoVectors"),
        410 => Some("InterpCurveQuat"),
        450 => Some("AI"),
        451 => Some("NavMesh"),
        500 => Some("PerformanceCapture"),
        600 => Some("EditorLayout"),
        601 => Some("EditorKeyBindings"),
        602 => Some("GameUserSettings"),
        _ => None,
    }
}


/// The channel kinds the decoder distinguishes. Any other name maps to
/// `Unnamed`, as an unrecognised channel name is not an error on the wire.
#[derive(Debug, Clone, Copy, PartialEq, Eq, Structural)]
pub enum ChannelName {
    Control,
    Voice,
    Actor,
    Unnamed,
}

/// The channel kind a decoded name string denotes.
pub open spec fn channel_name_of(s: Seq<char>) -> ChannelName {
    if s == "Control"@ {
        ChannelName::Control
    } else if s == "Voice"@ {
        ChannelName::Voice
    } else if s == "Actor"@ {
        ChannelName::Actor
    } else {
        ChannelName::Unnamed
    }
}

impl ChannelName {
    /// Classifies a decoded name string.
    pub fn parse(s: String) -> (r: ChannelName)
        ensures
            r == channel_name_of(s@),
    {
        if s == "Control".to_owned() {
            ChannelName::Control
        } else if s == "Voice".to_owned() {
            ChannelName::Voice
        } else if s == "Actor".to_owned() {
            ChannelName::Actor
        } else {
            ChannelName::Unnamed
        }
    }
}

/// Why a channel was closed. Serialized as a ranged int with exclusive
/// maximum 16; the id 15 is the sentinel variant of the engine's own table.
#[derive(Debug, Clone, Copy, PartialEq, Eq, Structural)]
pub enum ChannelCloseReason {
    Destroyed,
    Dormancy,
    LevelUnloaded,
    Relevancy,
    TearOff,
    MAX,
    Error,
}

/// Whether `id` denotes a close reason.
pub open spec fn close_reason_known(id: u32) -> bool {
    id == 0 || id == 1 || id == 2 || id == 3 || id == 4 || id == 15 || id == 16
}

/// The close reason `id` denotes.
pub open spec fn close_reason_of(id: u32) -> ChannelCloseReason {
    match id {
        0 => ChannelCloseReason::Destroyed,
        1 => ChannelCloseReason::Dormancy,
        2 => ChannelCloseReason::LevelUnloaded,
        3 => ChannelCloseReason::Relevancy,
        4 => ChannelCloseReason::TearOff,
        15 => ChannelCloseReason::MAX,
        _ => ChannelCloseReason::Error,
    }
}

impl ChannelCloseReason {
    /// Decodes a close-reason id; ids outside the engine's table are refused.
    pub fn parse(id: u32) -> (r: Option<ChannelCloseReason>)
        ensures
            r is Some <==> close_reason_known(id),
            r matches Some(c) ==> c == close_reason_of(id),
    {
        match id {
            0 => Some(ChannelCloseReason::Destroyed),
            1 => Some(ChannelCloseReason::Dormancy),
            2 => Some(ChannelCloseReason::LevelUnloaded),
            3 => Some(ChannelCloseReason::Relevancy),
            4 => Some(ChannelCloseReason::TearOff),
            15 => Some(ChannelCloseReason::MAX),
            16 => Some(ChannelCloseReason::Error),
            _ => None,
        }
    }
}

} // verus!

