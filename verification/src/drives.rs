//! The list of drives shown to the user.

use vstd::prelude::*;
use vstd::string::*;
use crate::types::DriveInfo;

verus! {

/// The label shown for a volume: the label that the system gave, or else
/// the fallback unless it is empty.
pub fn get_volume_label(found: Option<String>, fallback: &str) -> (label: Option<String>)
    ensures
        match found {
            Some(l) => label == Some(l),
            None => match label {
                Some(l) => l@ == fallback@ && fallback@.len() > 0,
                None => fallback@.len() == 0,
            },
        },
{
    match found {
        Some(l) => Some(l),
        None => {
            if fallback.unicode_len() == 0 {
                None
            } else {
                Some(String::from_str(fallback))
            }
        },
    }
}

/// The drives to show: those that were detected, or, where none was, the
/// root of the file system as the only one.
pub fn get_drives(detected: Vec<DriveInfo>) -> (drives: Vec<DriveInfo>)
    ensures
        detected.len() > 0 ==> drives == detected,
        detected.len() == 0 ==> {
            &&& drives.len() == 1
            &&& drives[0].name@ == "/"@
            &&& drives[0].path@ == "/"@
            &&& drives[0].total_space == 0
            &&& drives[0].free_space == 0
            &&& drives[0].drive_type@ == "unknown"@
            &&& drives[0].label matches Some(l) && l@ == "Root"@
        },
{
    if detected.len() == 0 {
        let mut drives: Vec<DriveInfo> = Vec::new();
        drives.push(
            DriveInfo {
                name: String::from_str("/"),
                path: String::from_str("/"),
                total_space: 0,
                free_space: 0,
                drive_type: String::from_str("unknown"),
                label: Some(String::from_str("Root")),
            },
        );
        drives
    } else {
        detected
    }
}

} // verus!
