//! The options with which a file is opened.

use vstd::prelude::*;

verus! {

/// How a file is to be opened. The options are plain flags; opening the file
/// is left to the caller.
#[derive(Debug, Clone, Copy, PartialEq, Eq, Structural)]
pub struct OpenOptions {
    read: bool,
    write: bool,
    append: bool,
    truncate: bool,
    create: bool,
    create_new: bool,
}

/// The flags of an `OpenOptions`.
pub ghost struct OpenFlags {
    pub read: bool,
    pub write: bool,
    pub append: bool,
    pub truncate: bool,
    pub create: bool,
    pub create_new: bool,
}

impl View for OpenOptions {
    type V = OpenFlags;

    closed spec fn view(&self) -> OpenFlags {
        OpenFlags {
            read: self.read,
            write: self.write,
            append: self.append,
            truncate: self.truncate,
            create: self.create,
            create_new: self.create_new,
        }
    }
}

impl OpenOptions {
    /// Options with every flag off.
    pub fn new() -> (o: Self)
        ensures
            o@ == (OpenFlags {
                read: false,
                write: false,
                append: false,
                truncate: false,
                create: false,
                create_new: false,
            }),
    {
        OpenOptions {
            read: false,
            write: false,
            append: false,
            truncate: false,
            create: false,
            create_new: false,
        }
    }

    /// Sets whether the file is opened for reading.
    pub fn read(&mut self, read: bool) -> (o: &mut Self)
        ensures
            o@ == (OpenFlags { read, ..old(self)@ }),
            *final(self) == *final(o),
    {
        self.read = read;
        self
    }

    /// Sets whether the file is opened for writing.
    pub fn write(&mut self, write: bool) -> (o: &mut Self)
        ensures
            o@ == (OpenFlags { write, ..old(self)@ }),
            *final(self) == *final(o),
    {
        self.write = write;
        self
    }

    /// Sets whether writes go to the end of the file.
    pub fn append(&mut self, append: bool) -> (o: &mut Self)
        ensures
            o@ == (OpenFlags { append, ..old(self)@ }),
            *final(self) == *final(o),
    {
        self.append = append;
        self
    }

    /// Sets whether the file is cut to length zero when it is opened.
    pub fn truncate(&mut self, truncate: bool) -> (o: &mut Self)
        ensures
            o@ == (OpenFlags { truncate, ..old(self)@ }),
            *final(self) == *final(o),
    {
        self.truncate = truncate;
        self
    }

    /// Sets whether the file is created where it does not exist.
    pub fn create(&mut self, create: bool) -> (o: &mut Self)
        ensures
            o@ == (OpenFlags { create, ..old(self)@ }),
            *final(self) == *final(o),
    {
        self.create = create;
        self
    }

    /// Sets whether the file must be new: opening fails where it exists.
    pub fn create_new(&mut self, create_new: bool) -> (o: &mut Self)
        ensures
            o@ == (OpenFlags { create_new, ..old(self)@ }),
            *final(self) == *final(o),
    {
        self.create_new = create_new;
        self
    }

    /// Whether the file is opened for reading.
    pub fn is_read(&self) -> (b: bool)
        ensures
            b == self@.read,
    {
        self.read
    }

    /// Whether the file is opened for writing.
    pub fn is_write(&self) -> (b: bool)
        ensures
            b == self@.write,
    {
        self.write
    }

    /// Whether writes go to the end of the file.
    pub fn is_append(&self) -> (b: bool)
        ensures
            b == self@.append,
    {
        self.append
    }

    /// Whether the file is cut to length zero when it is opened.
    pub fn is_truncate(&self) -> (b: bool)
        ensures
            b == self@.truncate,
    {
        self.truncate
    }

    /// Whether the file is created where it does not exist.
    pub fn is_create(&self) -> (b: bool)
        ensures
            b == self@.create,
    {
        self.create
    }

    /// Whether the file must be new.
    pub fn is_create_new(&self) -> (b: bool)
        ensures
            b == self@.create_new,
    {
        self.create_new
    }
}

impl Default for OpenOptions {
    fn default() -> (o: Self)
        ensures
            o@ == (OpenFlags {
                read: false,
                write: false,
                append: false,
                truncate: false,
                create: false,
                create_new: false,
            }),
    {
        OpenOptions::new()
    }
}

} // verus!
