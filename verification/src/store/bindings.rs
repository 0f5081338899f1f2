//! Telemetry settings as the JavaScript side passes them: every setting
//! optional, the defaults filling in what is not given.
use vstd::prelude::*;

use crate::store::telemetry::{TelemetryConfig, TimeSlice};
use crate::text::to_owned_string;

verus! {

/// Time-slice policy as the JavaScript side names it.
#[derive(Debug, Clone, Copy, PartialEq, Eq, Structural)]
pub enum TimeSliceNapi {
    Daily,
}

/// Telemetry storage settings as the JavaScript side passes them.
#[derive(Debug)]
pub struct TelemetryConfigNapi {
    pub app_name: Option<String>,
    pub partitions: Option<u32>,
    pub batch_max_ms: Option<u32>,
    pub batch_max_bytes: Option<u32>,
    pub batch_max_records: Option<u32>,
    pub max_inflight: Option<u32>,
    pub retention_days: Option<u32>,
    pub time_slice: Option<TimeSliceNapi>,
    pub default_service: Option<String>,
}

/// A given setting, or the default.
pub open spec fn or_default(given: Option<u32>, default: int) -> int {
    match given {
        Some(v) => v as int,
        None => default,
    }
}

impl TelemetryConfigNapi {
    /// The settings used where none are passed: the app name `app` and
    /// nothing else.
    pub fn default_config() -> (r: Self)
        ensures
            r.app_name matches Some(n) && n@ == "app"@,
            r.partitions is None,
            r.batch_max_ms is None,
            r.batch_max_bytes is None,
            r.batch_max_records is None,
            r.max_inflight is None,
            r.retention_days is None,
            r.time_slice is None,
            r.default_service is None,
    {
        TelemetryConfigNapi {
            app_name: Some(to_owned_string("app")),
            partitions: None,
            batch_max_ms: None,
            batch_max_bytes: None,
            batch_max_records: None,
            max_inflight: None,
            retention_days: None,
            time_slice: None,
            default_service: None,
        }
    }

    /// The storage configuration: each given setting over the defaults of
    /// `TelemetryConfig::new` (app name `app` where none is given); refused
    /// where 0 partitions are asked for.
    pub fn to_config(&self) -> (r: Result<TelemetryConfig, String>)
        ensures
            self.partitions == Some(0u32) <==> r is Err,
            r matches Err(msg) ==> msg@ == "telemetry partitions must be >= 1"@,
            r matches Ok(c) ==> {
                &&& c.app_name@ == (match self.app_name {
                    Some(n) => n@,
                    None => "app"@,
                })
                &&& c.partitions == or_default(self.partitions, 8)
                &&& c.batch_max_ms == or_default(self.batch_max_ms, 10)
                &&& c.batch_max_bytes == or_default(self.batch_max_bytes, 262144)
                &&& c.batch_max_records == or_default(self.batch_max_records, 2000)
                &&& c.max_inflight == or_default(self.max_inflight, 50000)
                &&& c.retention_days == or_default(self.retention_days, 30)
                &&& c.time_slice == TimeSlice::Daily
                &&& (match self.default_service {
                    Some(s) => c.default_service matches Some(t) && t@ == s@,
                    None => c.default_service is None,
                })
            },
    {
        let app_name = match &self.app_name {
            Some(n) => n.clone(),
            None => to_owned_string("app"),
        };
        let mut config = TelemetryConfig::new(app_name);
        if let Some(partitions) = self.partitions {
            if partitions == 0 {
                return Err(to_owned_string("telemetry partitions must be >= 1"));
            }
            config.partitions = partitions as usize;
        }
        if let Some(batch_max_ms) = self.batch_max_ms {
            config.batch_max_ms = batch_max_ms as u64;
        }
        if let Some(batch_max_bytes) = self.batch_max_bytes {
            config.batch_max_bytes = batch_max_bytes as usize;
        }
        if let Some(batch_max_records) = self.batch_max_records {
            config.batch_max_records = batch_max_records as usize;
        }
        if let Some(max_inflight) = self.max_inflight {
            config.max_inflight = max_inflight as usize;
        }
        if let Some(retention_days) = self.retention_days {
            config.retention_days = retention_days as u64;
        }
        if let Some(time_slice) = self.time_slice {
            config.time_slice = match time_slice {
                TimeSliceNapi::Daily => TimeSlice::Daily,
            };
        }
        if let Some(default_service) = &self.default_service {
            config.default_service = Some(default_service.clone());
        }
        Ok(config)
    }
}

} // verus!
