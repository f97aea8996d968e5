//! Files and what they hold.

use vstd::prelude::*;

verus! {

/// What a file holds, and thereby how it may be used.
#[derive(Debug, PartialEq, Eq)]
pub enum FileContent {
    /// Characters that can be read and replaced.
    Text(String),
    /// A program, known by the key under which its behaviour is registered.
    Executable(u64),
    /// A marker for the shop of this name.
    Shop { name: String },
}

/// A named entry of a directory that holds content.
#[derive(Debug, PartialEq, Eq)]
pub struct File {
    pub name: String,
    pub content: FileContent,
}

/// Mathematical counterpart of [`FileContent`].
pub enum ContentView {
    Text(Seq<char>),
    Executable(u64),
    Shop { name: Seq<char> },
}

/// Mathematical counterpart of [`File`].
pub struct FileView {
    pub name: Seq<char>,
    pub content: ContentView,
}

impl View for FileContent {
    type V = ContentView;

    open spec fn view(&self) -> ContentView {
        match self {
            FileContent::Text(text) => ContentView::Text(text@),
            FileContent::Executable(key) => ContentView::Executable(*key),
            FileContent::Shop { name } => ContentView::Shop { name: name@ },
        }
    }
}

impl View for File {
    type V = FileView;

    open spec fn view(&self) -> FileView {
        FileView { name: self.name@, content: self.content@ }
    }
}

impl ContentView {
    /// The short tag under which a listing shows the kind of content.
    pub open spec fn tag(self) -> Seq<char> {
        match self {
            ContentView::Text(_) => "TXT"@,
            ContentView::Executable(_) => "EXEC"@,
            ContentView::Shop { .. } => "SHOP"@,
        }
    }
}

impl FileView {
    /// The line that shows the file in a listing.
    pub open spec fn label(self) -> Seq<char> {
        "🗎 "@ + self.name + " ("@ + self.content.tag() + ")"@
    }
}

impl FileContent {
    /// The short tag under which a listing shows the kind of content.
    pub fn to_text(&self) -> (tag: String)
        ensures
            tag@ == self@.tag(),
    {
        match self {
            FileContent::Text(_) => "TXT".to_owned(),
            FileContent::Executable(_) => "EXEC".to_owned(),
            FileContent::Shop { .. } => "SHOP".to_owned(),
        }
    }
}

impl File {
    /// The line that shows the file in a listing.
    pub fn to_text(&self) -> (label: String)
        ensures
            label@ == self@.label(),
    {
        let mut label = "🗎 ".to_owned();
        label.append(self.name.as_str());
        label.append(" (");
        label.append(self.content.to_text().as_str());
        label.append(")");
        label
    }
}

} // verus!
