//! One decoded bodyfile line.

use vstd::prelude::*;
use vstd::string::StringExecFns;

use crate::text::{decimal, push_char, push_decimal, push_signed_decimal, signed_decimal};

verus! {

/// The value that stands for a timestamp that does not apply.
pub const ABSENT: i64 = -1;

/// What a [`Record`] holds, with its texts as sequences of characters.
pub struct RecordView {
    pub md5: Seq<char>,
    pub name: Seq<char>,
    pub inode: Seq<char>,
    pub mode: Seq<char>,
    pub uid: u64,
    pub gid: u64,
    pub size: u64,
    pub atime: i64,
    pub mtime: i64,
    pub ctime: i64,
    pub crtime: i64,
}

/// The metadata of one file system object: a name, an object identifier,
/// a mode, owner and size, and four timestamps in seconds since the epoch,
/// each of which is [`ABSENT`] where it does not apply.
#[derive(Debug)]
pub struct Record {
    pub(crate) md5: String,
    pub(crate) name: String,
    pub(crate) inode: String,
    pub(crate) mode: String,
    pub(crate) uid: u64,
    pub(crate) gid: u64,
    pub(crate) size: u64,
    pub(crate) atime: i64,
    pub(crate) mtime: i64,
    pub(crate) ctime: i64,
    pub(crate) crtime: i64,
}

impl View for Record {
    type V = RecordView;

    closed spec fn view(&self) -> RecordView {
        RecordView {
            md5: self.md5@,
            name: self.name@,
            inode: self.inode@,
            mode: self.mode@,
            uid: self.uid,
            gid: self.gid,
            size: self.size,
            atime: self.atime,
            mtime: self.mtime,
            ctime: self.ctime,
            crtime: self.crtime,
        }
    }
}

impl RecordView {
    /// The record that [`Record::new`] makes: checksum and identifier `0`,
    /// empty name and mode, owner and size 0, no timestamp.
    pub open spec fn blank() -> RecordView {
        RecordView {
            md5: seq!['0'],
            name: Seq::empty(),
            inode: seq!['0'],
            mode: Seq::empty(),
            uid: 0,
            gid: 0,
            size: 0,
            atime: ABSENT,
            mtime: ABSENT,
            ctime: ABSENT,
            crtime: ABSENT,
        }
    }
}

impl RecordView {
    /// The line of a bodyfile that holds the record: checksum, name,
    /// object identifier, mode, owner, group, size, and the times of
    /// access, modification, change and birth, with `|` between them.
    pub open spec fn line(self) -> Seq<char> {
        self.md5 + seq!['|'] + self.name + seq!['|'] + self.inode + seq!['|'] + self.mode + seq![
            '|',
        ] + decimal(self.uid as nat) + seq!['|'] + decimal(self.gid as nat) + seq!['|'] + decimal(
            self.size as nat,
        ) + seq!['|'] + signed_decimal(self.atime as int) + seq!['|'] + signed_decimal(
            self.mtime as int,
        ) + seq!['|'] + signed_decimal(self.ctime as int) + seq!['|'] + signed_decimal(
            self.crtime as int,
        )
    }
}

impl Record {
    /// The record as a line of a bodyfile.
    pub fn to_string(&self) -> (res: String)
        ensures
            res@ == self@.line(),
    {
        let mut s = self.md5.clone();
        push_char(&mut s, '|');
        s.append(self.name.as_str());
        push_char(&mut s, '|');
        s.append(self.inode.as_str());
        push_char(&mut s, '|');
        s.append(self.mode.as_str());
        push_char(&mut s, '|');
        push_decimal(&mut s, self.uid);
        push_char(&mut s, '|');
        push_decimal(&mut s, self.gid);
        push_char(&mut s, '|');
        push_decimal(&mut s, self.size);
        push_char(&mut s, '|');
        push_signed_decimal(&mut s, self.atime);
        push_char(&mut s, '|');
        push_signed_decimal(&mut s, self.mtime);
        push_char(&mut s, '|');
        push_signed_decimal(&mut s, self.ctime);
        push_char(&mut s, '|');
        push_signed_decimal(&mut s, self.crtime);
        assert(s@ =~= self@.line());
        s
    }

    /// An empty record.
    pub fn new() -> (res: Record)
        ensures
            res@ == RecordView::blank(),
    {
        proof {
            reveal_strlit("0");
            reveal_strlit("");
        }
        let res = Record {
            md5: "0".to_owned(),
            name: "".to_owned(),
            inode: "0".to_owned(),
            mode: "".to_owned(),
            uid: 0,
            gid: 0,
            size: 0,
            atime: ABSENT,
            mtime: ABSENT,
            ctime: ABSENT,
            crtime: ABSENT,
        };
        assert(res@.md5 =~= seq!['0']);
        assert(res@.inode =~= seq!['0']);
        assert(res@.name =~= Seq::<char>::empty());
        assert(res@.mode =~= Seq::<char>::empty());
        res
    }

    /// A record with the given values.
    pub fn from_values(
        md5: String,
        name: String,
        inode: String,
        mode: String,
        uid: u64,
        gid: u64,
        size: u64,
        atime: i64,
        mtime: i64,
        ctime: i64,
        crtime: i64,
    ) -> (res: Record)
        ensures
            res@ == (RecordView {
                md5: md5@,
                name: name@,
                inode: inode@,
                mode: mode@,
                uid,
                gid,
                size,
                atime,
                mtime,
                ctime,
                crtime,
            }),
    {
        Record { md5, name, inode, mode, uid, gid, size, atime, mtime, ctime, crtime }
    }

    /// The same record with another checksum.
    pub fn with_md5(self, md5: &str) -> (res: Record)
        ensures
            res@ == (RecordView { md5: md5@, ..self@ }),
    {
        let mut res = self;
        res.md5 = md5.to_owned();
        res
    }

    /// The same record with another name.
    pub fn with_name(self, name: &str) -> (res: Record)
        ensures
            res@ == (RecordView { name: name@, ..self@ }),
    {
        let mut res = self;
        res.name = name.to_owned();
        res
    }

    /// The same record with another object identifier.
    pub fn with_inode(self, inode: &str) -> (res: Record)
        ensures
            res@ == (RecordView { inode: inode@, ..self@ }),
    {
        let mut res = self;
        res.inode = inode.to_owned();
        res
    }

    /// The same record with another mode.
    pub fn with_mode(self, mode: &str) -> (res: Record)
        ensures
            res@ == (RecordView { mode: mode@, ..self@ }),
    {
        let mut res = self;
        res.mode = mode.to_owned();
        res
    }

    /// The same record with another owner.
    pub fn with_uid(self, uid: u64) -> (res: Record)
        ensures
            res@ == (RecordView { uid, ..self@ }),
    {
        let mut res = self;
        res.uid = uid;
        res
    }

    /// The same record with another group.
    pub fn with_gid(self, gid: u64) -> (res: Record)
        ensures
            res@ == (RecordView { gid, ..self@ }),
    {
        let mut res = self;
        res.gid = gid;
        res
    }

    /// The same record with another size.
    pub fn with_size(self, size: u64) -> (res: Record)
        ensures
            res@ == (RecordView { size, ..self@ }),
    {
        let mut res = self;
        res.size = size;
        res
    }

    /// The same record with another access time.
    pub fn with_atime(self, atime: i64) -> (res: Record)
        ensures
            res@ == (RecordView { atime, ..self@ }),
    {
        let mut res = self;
        res.atime = atime;
        res
    }

    /// The same record with another modification time.
    pub fn with_mtime(self, mtime: i64) -> (res: Record)
        ensures
            res@ == (RecordView { mtime, ..self@ }),
    {
        let mut res = self;
        res.mtime = mtime;
        res
    }

    /// The same record with another change time.
    pub fn with_ctime(self, ctime: i64) -> (res: Record)
        ensures
            res@ == (RecordView { ctime, ..self@ }),
    {
        let mut res = self;
        res.ctime = ctime;
        res
    }

    /// The same record with another creation time.
    pub fn with_crtime(self, crtime: i64) -> (res: Record)
        ensures
            res@ == (RecordView { crtime, ..self@ }),
    {
        let mut res = self;
        res.crtime = crtime;
        res
    }

    /// The checksum.
    pub fn get_md5(&self) -> (res: &str)
        ensures
            res@ == self@.md5,
    {
        self.md5.as_str()
    }

    /// The name.
    pub fn get_name(&self) -> (res: &str)
        ensures
            res@ == self@.name,
    {
        self.name.as_str()
    }

    /// The object identifier.
    pub fn get_inode(&self) -> (res: &str)
        ensures
            res@ == self@.inode,
    {
        self.inode.as_str()
    }

    /// The mode.
    pub fn get_mode(&self) -> (res: &str)
        ensures
            res@ == self@.mode,
    {
        self.mode.as_str()
    }

    /// The owner.
    pub fn get_uid(&self) -> (res: u64)
        ensures
            res == self@.uid,
    {
        self.uid
    }

    /// The group.
    pub fn get_gid(&self) -> (res: u64)
        ensures
            res == self@.gid,
    {
        self.gid
    }

    /// The size in bytes.
    pub fn get_size(&self) -> (res: u64)
        ensures
            res == self@.size,
    {
        self.size
    }

    /// The access time.
    pub fn get_atime(&self) -> (res: i64)
        ensures
            res == self@.atime,
    {
        self.atime
    }

    /// The modification time.
    pub fn get_mtime(&self) -> (res: i64)
        ensures
            res == self@.mtime,
    {
        self.mtime
    }

    /// The change time.
    pub fn get_ctime(&self) -> (res: i64)
        ensures
            res == self@.ctime,
    {
        self.ctime
    }

    /// The creation time.
    pub fn get_crtime(&self) -> (res: i64)
        ensures
            res == self@.crtime,
    {
        self.crtime
    }
}

} // verus!
