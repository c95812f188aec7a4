pub mod camera_utils;
