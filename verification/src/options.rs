//! The other subcommands' configurations.
//!
//! Archive, restore, schedule, list and clean are pass-through commands:
//! each only reports its configured fields.  The functions here extract the
//! values to report, so the caller has nothing left to do but print them;
//! a field the report needs must be set, as each contract demands.

use vstd::prelude::*;

verus! {

/// Configuration of the archive command.
pub struct ArchiveData {
    /// Save the file as .zip.
    pub zip: Option<bool>,
    /// Save the file as .tar.gz.
    pub tar: Option<bool>,
    /// Encrypt the archive.
    pub encrypt: Option<bool>,
    /// Append date and time to the file name.
    pub timestamp: Option<bool>,
}

impl ArchiveData {
    /// The four configured values, ready to report.
    pub fn archive_options(&self) -> (r: (bool, bool, bool, bool))
        requires
            self.zip.is_some(),
            self.tar.is_some(),
            self.encrypt.is_some(),
            self.timestamp.is_some(),
        ensures
            r == (
                self.zip.unwrap(),
                self.tar.unwrap(),
                self.encrypt.unwrap(),
                self.timestamp.unwrap(),
            ),
    {
        (
            self.zip.unwrap(),
            self.tar.unwrap(),
            self.encrypt.unwrap(),
            self.timestamp.unwrap(),
        )
    }
}

/// Configuration of the clean command.
pub struct CleanData {
    /// Keep only the last so-many backups.
    pub keep_last: Option<u32>,
    /// Delete backups older than so-many days.
    pub older_than: Option<u32>,
    /// Only show what would be deleted.
    pub dry_run: Option<bool>,
}

impl CleanData {
    /// The three configured values, ready to report.
    pub fn clean_options(&self) -> (r: (u32, u32, bool))
        requires
            self.keep_last.is_some(),
            self.older_than.is_some(),
            self.dry_run.is_some(),
        ensures
            r == (self.keep_last.unwrap(), self.older_than.unwrap(), self.dry_run.unwrap()),
    {
        (self.keep_last.unwrap(), self.older_than.unwrap(), self.dry_run.unwrap())
    }
}

/// Configuration of the list command.
pub struct ListData {
    /// List the archive files.
    pub archives: bool,
    /// List the scheduled tasks.
    pub schedules: bool,
    /// Show timestamps and sizes.
    pub details: bool,
}

impl ListData {
    /// The three configured values, ready to report.
    pub fn list_options(&self) -> (r: (bool, bool, bool))
        ensures
            r == (self.archives, self.schedules, self.details),
    {
        (self.archives, self.schedules, self.details)
    }
}

/// Configuration of the restore command.
pub struct RestoreData {
    /// Replace existing files during the restore.
    pub overwrite: bool,
    /// Restore into this folder instead.
    pub to: Option<String>,
    /// Restore only this file.
    pub select: Option<String>,
}

impl RestoreData {
    /// The three configured values, ready to report.
    pub fn restore_options(&self) -> (r: (bool, String, String))
        requires
            self.to.is_some(),
            self.select.is_some(),
        ensures
            r.0 == self.overwrite,
            r.1@ == self.to.unwrap()@,
            r.2@ == self.select.unwrap()@,
    {
        let to = match &self.to {
            Some(p) => p.clone(),
            None => String::new(),
        };
        let select = match &self.select {
            Some(p) => p.clone(),
            None => String::new(),
        };
        (self.overwrite, to, select)
    }
}

/// Configuration of the schedule command.
pub struct ScheduleData {
    /// Run every day at the given time.
    pub daily: String,
    /// Run once a week.
    pub weekly: Option<String>,
    /// Run every so-many minutes.
    pub interval: Option<u32>,
    /// The command to run.
    pub command: Option<String>,
}

impl ScheduleData {
    /// The four configured values, ready to report.
    pub fn schedule_options(&self) -> (r: (String, String, u32, String))
        requires
            self.weekly.is_some(),
            self.interval.is_some(),
            self.command.is_some(),
        ensures
            r.0@ == self.daily@,
            r.1@ == self.weekly.unwrap()@,
            r.2 == self.interval.unwrap(),
            r.3@ == self.command.unwrap()@,
    {
        let weekly = match &self.weekly {
            Some(s) => s.clone(),
            None => String::new(),
        };
        let command = match &self.command {
            Some(s) => s.clone(),
            None => String::new(),
        };
        (self.daily.clone(), weekly, self.interval.unwrap(), command)
    }
}

/// One parsed invocation of the tool.
pub struct Cover {
    /// The subcommand and its configuration.
    pub command: Command,
}

/// The subcommands the tool offers.
pub enum Command {
    /// Keep two folders in sync with each other.
    Sync(crate::sync::SyncData),
    /// Create a compressed backup file.
    Archive(ArchiveData),
    /// Restore from an archive or backup folder.
    Restore(RestoreData),
    /// Set up automatic backups.
    Schedule(ScheduleData),
    /// Show the history of backups or scheduled jobs.
    List(ListData),
    /// Remove old backups to save space.
    Clean(CleanData),
}

} // verus!
