//! The records that the synchroniser keeps of videos, pages and subscriptions.

use vstd::prelude::*;

use crate::clock::Moment;

verus! {

/// A video as it is recorded.
#[derive(Debug, Clone)]
pub struct VideoModel {
    pub id: i32,
    pub bvid: String,
    pub name: String,
    pub upper_id: i64,
    pub upper_name: String,
    pub upper_face: String,
    pub category: i32,
    pub cover: String,
    pub pubtime: Moment,
    pub favtime: Moment,
    pub path: String,
    pub single_page: Option<bool>,
    pub season_id: Option<String>,
    pub ep_id: Option<String>,
    pub source_type: Option<i32>,
    pub collection_id: Option<i32>,
    pub episode_number: Option<i32>,
    pub source_submission_id: Option<i32>,
}

/// One page of a video as it is recorded.
#[derive(Debug, Clone)]
pub struct PageModel {
    pub id: i32,
    pub video_id: i32,
    pub pid: i32,
    pub name: String,
    pub cid: i64,
    pub duration: u32,
    pub width: Option<u32>,
    pub height: Option<u32>,
    pub image: Option<String>,
    pub path: Option<String>,
}

/// A member of the staff that made a video together.
#[derive(Debug, Clone)]
pub struct StaffInfo {
    pub mid: i64,
    pub title: String,
    pub name: String,
    pub face: String,
}

/// A subscription to the uploads of one creator.
#[derive(Debug, Clone)]
pub struct Submission {
    pub id: i32,
    pub upper_id: i64,
    pub upper_name: String,
}

/// The video type that marks an episode of a series.
pub const SOURCE_TYPE_BANGUMI: i32 = 1;

}
