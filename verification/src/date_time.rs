//! Calendar timestamps decoded from the packed MS-DOS date and time words
//! stored in a central-directory entry.

use vstd::prelude::*;

verus! {

/// A calendar date. Decoded from a packed word whose bits hold the day
/// (bits 0-4), the month (bits 5-8) and the year offset from 1980 (bits 9-15).
#[derive(Debug)]
pub struct ZipDate {
    pub day: u8,
    pub month: u8,
    pub year: u16,
}

/// A time of day. Decoded from a packed word whose bits hold the second
/// divided by two (bits 0-4), the minute (bits 5-10) and the hour (bits 11-15).
#[derive(Debug)]
pub struct ZipTime {
    pub hour: u8,
    pub min: u8,
    pub second: u8,
}

/// The timestamp of an archive entry.
#[derive(Debug)]
pub struct ZipDateTime {
    pub date: ZipDate,
    pub time: ZipTime,
}

/// The date decoded from a packed MS-DOS date word.
pub open spec fn spec_date_from_word(date: u16) -> ZipDate {
    ZipDate {
        day: (date & 0x001F) as u8,
        month: ((date >> 5) & 0x000F) as u8,
        year: ((date >> 9) + 1980) as u16,
    }
}

/// The time decoded from a packed MS-DOS time word. The stored second count
/// is halved, so it is doubled back here.
pub open spec fn spec_time_from_word(time: u16) -> ZipTime {
    ZipTime {
        hour: (time >> 11) as u8,
        min: ((time >> 5) & 0x003F) as u8,
        second: ((time & 0x001F) * 2) as u8,
    }
}

/// The timestamp decoded from the two packed words.
pub open spec fn spec_date_time_from_bytes(date: u16, time: u16) -> ZipDateTime {
    ZipDateTime { date: spec_date_from_word(date), time: spec_time_from_word(time) }
}

impl ZipDateTime {
    /// Decodes the packed MS-DOS date and time words of an entry record.
    pub fn from_bytes(date: u16, time: u16) -> (r: ZipDateTime)
        ensures
            r == spec_date_time_from_bytes(date, time),
    {
        let day = (date & 0x001F) as u8;
        let month = ((date >> 5) & 0x000F) as u8;
        assert((date >> 9) <= 0x7F) by (bit_vector);
        let year = (date >> 9) + 1980;

        let zip_date = ZipDate { day, month, year };

        assert((time & 0x001F) <= 0x1F) by (bit_vector);
        let second = ((time & 0x001F) * 2) as u8;
        let min = ((time >> 5) & 0x003F) as u8;
        let hour = (time >> 11) as u8;

        let zip_time = ZipTime { hour, min, second };

        ZipDateTime { date: zip_date, time: zip_time }
    }
}

} // verus!
