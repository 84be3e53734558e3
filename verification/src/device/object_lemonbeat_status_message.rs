//! The object that holds the last status message of a device, if there was one.

use crate::device::Device;
use crate::error::Error;
use crate::time::Nanos;
use vstd::prelude::*;

verus! {

impl Device {
    pub fn status_type(&self) -> (res: Result<(u64, Nanos), Error>)
        ensures
            match self.persistent.status {
                Some(status) => res == Ok::<(u64, Nanos), Error>(
                    (status.type_id as u64, self.persistent.modified),
                ),
                None => res == Err::<(u64, Nanos), Error>(Error::MissingStatus),
            },
    {
        match &self.persistent.status {
            Some(status) => Ok((status.type_id as u64, self.persistent.modified)),
            None => Err(Error::MissingStatus),
        }
    }

    pub fn status_code(&self) -> (res: Result<(u64, Nanos), Error>)
        ensures
            match self.persistent.status {
                Some(status) => res == Ok::<(u64, Nanos), Error>(
                    (status.code as u64, self.persistent.modified),
                ),
                None => res == Err::<(u64, Nanos), Error>(Error::MissingStatus),
            },
    {
        match &self.persistent.status {
            Some(status) => Ok((status.code as u64, self.persistent.modified)),
            None => Err(Error::MissingStatus),
        }
    }

    pub fn status_level(&self) -> (res: Result<(u64, Nanos), Error>)
        ensures
            match self.persistent.status {
                Some(status) => res == Ok::<(u64, Nanos), Error>(
                    (status.level as u64, self.persistent.modified),
                ),
                None => res == Err::<(u64, Nanos), Error>(Error::MissingStatus),
            },
    {
        match &self.persistent.status {
            Some(status) => Ok((status.level as u64, self.persistent.modified)),
            None => Err(Error::MissingStatus),
        }
    }

    /// The data of the message; nothing for a message without any.
    pub fn status_data(&self) -> (res: Result<(String, Nanos), Error>)
        ensures
            match (self.persistent.status, res) {
                (Some(status), Ok((text, modified))) => {
                    &&& text@ == (match status.data {
                        Some(data) => data@,
                        None => Seq::empty(),
                    })
                    &&& modified == self.persistent.modified
                },
                (None, Err(e)) => e == Error::MissingStatus,
                _ => false,
            },
    {
        match &self.persistent.status {
            Some(status) => {
                let text: String = match &status.data {
                    Some(data) => data.clone(),
                    None => String::new(),
                };
                Ok((text, self.persistent.modified))
            },
            None => Err(Error::MissingStatus),
        }
    }
}

} // verus!
