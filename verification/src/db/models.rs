//! Uploaded 3D models and the monsters that come with them.

use vstd::prelude::*;

verus! {

/// The record of an uploaded 3D model. A model can be bound to a
/// character once; `is_used` says whether it has been.
#[derive(Debug, PartialEq, Eq)]
pub struct Model3D {
    pub id: String,
    pub file_name: String,
    pub file_path: String,
    pub file_size: i64,
    pub mime_type: String,
    /// The time of the upload, as RFC 3339 text.
    pub uploaded_at: String,
    pub is_used: bool,
}

impl Clone for Model3D {
    fn clone(&self) -> (m: Model3D)
        ensures
            m == *self,
    {
        Model3D {
            id: self.id.clone(),
            file_name: self.file_name.clone(),
            file_path: self.file_path.clone(),
            file_size: self.file_size,
            mime_type: self.mime_type.clone(),
            uploaded_at: self.uploaded_at.clone(),
            is_used: self.is_used,
        }
    }
}

/// The current time as RFC 3339 text: `chrono::Utc::now().to_rfc3339()`.
/// The text depends on the clock, so nothing is claimed of it.
#[verifier::external_body]
pub(crate) fn current_time_rfc3339() -> (text: String) {
    chrono::Utc::now().to_rfc3339()
}

impl Model3D {
    /// The record of a model uploaded at a given time; the model is unused.
    pub fn uploaded(
        id: String,
        file_name: String,
        file_path: String,
        file_size: i64,
        mime_type: String,
        uploaded_at: String,
    ) -> (m: Model3D)
        ensures
            m == (Model3D {
                id,
                file_name,
                file_path,
                file_size,
                mime_type,
                uploaded_at,
                is_used: false,
            }),
    {
        Model3D { id, file_name, file_path, file_size, mime_type, uploaded_at, is_used: false }
    }

    /// The record of a model uploaded now; the model is unused.
    pub fn new(
        id: String,
        file_name: String,
        file_path: String,
        file_size: i64,
        mime_type: String,
    ) -> (m: Model3D)
        ensures
            m == (Model3D {
                id,
                file_name,
                file_path,
                file_size,
                mime_type,
                uploaded_at: m.uploaded_at,
                is_used: false,
            }),
    {
        Self::uploaded(id, file_name, file_path, file_size, mime_type, current_time_rfc3339())
    }
}

/// The record of a monster: the fighting values that belong to a model.
#[derive(Debug, PartialEq, Eq)]
pub struct Monster {
    pub name: String,
    pub max_hp: i64,
    pub short_range_attack_power: i64,
    pub long_range_attack_power: i64,
    pub defense_power: i64,
    pub move_speed: i64,
    pub attack_range: i64,
    pub attack_cooldown: i64,
    pub size_type: String,
}

} // verus!
