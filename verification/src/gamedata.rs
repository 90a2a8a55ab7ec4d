//! Static game-data registries: the entries sent to a configuring client as
//! NBT payloads, and the wire form of the registry-data body.
//!
//! Loading the table from a document and NBT-encoding each entry are the
//! embedding program's job; this crate holds the entry data model and writes
//! the registry-data packet body around the encoded bytes.

use vstd::prelude::*;

use crate::protocol::{PrefixedArray, ReadError, Readable, WriteError, Writeable};
use crate::text::Color;

verus! {

/// One registry's worth of entries, named by the registry id.
#[derive(Debug, Clone)]
pub struct RegistryData {
    pub registry_id: String,
    pub entries: PrefixedArray<RegistryDataEntry>,
}

/// A single named registry entry with its optional NBT-encoded payload.
#[derive(Debug, Clone)]
pub struct RegistryDataEntry {
    pub entry_id: String,
    /// The entry's NBT-encoded payload, already serialized.
    pub data: Option<Vec<u8>>,
}

impl Writeable for RegistryDataEntry {
    /// On the wire: the entry id, a presence flag, then the raw payload
    /// bytes (no length prefix — NBT is self-delimiting).
    open spec fn encoding(&self) -> Seq<u8> {
        self.entry_id.encoding() + (match self.data {
            Some(d) => seq![1u8] + d@,
            None => seq![0u8],
        })
    }

    open spec fn encodable(&self) -> bool {
        self.entry_id.encodable()
    }

    fn write(&self) -> (r: Result<Vec<u8>, WriteError>) {
        let mut out: Vec<u8> = Vec::new();
        let piece = match self.entry_id.write() {
            Ok(b) => b,
            Err(e) => {
                return Err(e);
            },
        };
        out.extend_from_slice(piece.as_slice());
        match &self.data {
            Some(d) => {
                out.push(0x01);
                out.extend_from_slice(d.as_slice());
            },
            None => {
                out.push(0x00);
            },
        }
        proof {
            assert(out@ =~= self.encoding());
        }
        Ok(out)
    }
}

impl Writeable for RegistryData {
    open spec fn encoding(&self) -> Seq<u8> {
        self.registry_id.encoding() + self.entries.encoding()
    }

    open spec fn encodable(&self) -> bool {
        self.registry_id.encodable() && self.entries.encodable()
    }

    fn write(&self) -> (r: Result<Vec<u8>, WriteError>) {
        let mut out: Vec<u8> = Vec::new();
        let piece = match self.registry_id.write() {
            Ok(b) => b,
            Err(e) => {
                return Err(e);
            },
        };
        out.extend_from_slice(piece.as_slice());
        let piece = match self.entries.write() {
            Ok(b) => b,
            Err(e) => {
                return Err(e);
            },
        };
        out.extend_from_slice(piece.as_slice());
        proof {
            assert(out@ =~= self.encoding());
        }
        Ok(out)
    }
}

/// Particle options of a biome's ambient particle effect.
#[derive(Debug, Clone)]
pub struct RegistryBiomeEffectsParticleOptions {
    pub option_type: String,
    pub value: Option<i32>,
}

/// Timing data of a biome's background music.
#[derive(Debug, Clone)]
pub struct RegistryBiomeEffectsMusicData {
    pub sound: String,
    pub min_delay: i32,
    pub max_delay: i32,
    pub replace_current_music: bool,
}

/// A weighted background music choice.
#[derive(Debug, Clone)]
pub struct RegistryBiomeEffectsMusic {
    pub data: RegistryBiomeEffectsMusicData,
    pub weight: i32,
}

/// A biome's carvers: one name or several.
#[derive(Debug, Clone)]
pub enum RegistryBiomeCarvers {
    String(String),
    Vec(Vec<String>),
}

/// A mob variant named by its visual asset.
#[derive(Debug, Clone)]
pub struct RegistryMobVariant {
    pub asset_id: String,
    pub model: Option<String>,
}

/// The three textures of a wolf variant.
#[derive(Debug, Clone)]
pub struct RegistryWolfVariantAssets {
    pub angry: String,
    pub tame: String,
    pub wild: String,
}

/// A wolf variant.
#[derive(Debug, Clone)]
pub struct RegistryWolfVariant {
    pub assets: RegistryWolfVariantAssets,
}

/// The sound set of a wolf variant.
#[derive(Debug, Clone)]
pub struct RegistryWolfSoundVariant {
    pub ambient_sound: String,
    pub death_sound: String,
    pub growl_sound: String,
    pub hurt_sound: String,
    pub pant_sound: String,
    pub whine_sound: String,
}

/// A painting's title or author: plain or a colored translation key.
#[derive(Debug, Clone)]
pub enum RegistryPaintingVariantText {
    String(String),
    TextComponent { color: Color, translate: String },
}

/// A painting variant.
#[derive(Debug, Clone)]
pub struct RegistryPaintingVariant {
    pub asset_id: String,
    pub height: i32,
    pub width: i32,
    pub title: RegistryPaintingVariantText,
    pub author: Option<RegistryPaintingVariantText>,
}

/// The light range monsters spawn in.
#[derive(Debug, Clone)]
pub struct RegistryDimensionTypeMonsterSpawnLightLevel {
    pub light_level_type: String,
    pub max_inclusive: i32,
    pub min_inclusive: i32,
}

/// A monster spawn light level: a single value or a range.
#[derive(Debug, Clone)]
pub enum RegistryDimensionTypeMonsterSpawnLightLevelType {
    Int(i32),
    RegistryDimensionTypeMonsterSpawnLightLevel(RegistryDimensionTypeMonsterSpawnLightLevel),
}

} // verus!
