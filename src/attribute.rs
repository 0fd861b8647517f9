use vstd::prelude::*;
use crate::kaitai_type::Type;
use crate::model::{Doc, DocRef, Enum};

verus! {

/// One field of a sequence: a unit of parsing work.
#[derive(Debug)]
pub struct Attribute {
    pub id: Option<String>,
    pub doc: Option<Doc>,
    pub doc_ref: Option<DocRef>,
    /// Fixed bytes that must come next.
    pub contents: Option<Vec<u8>>,
    pub seq_type: Option<Type>,
    pub repeat: Option<Repeat>,
    /// How many times to repeat, as an expression.
    pub repeat_expr: Option<String>,
    /// When to stop repeating, as an expression.
    pub repeat_until: Option<String>,
    /// When the field is present, as an expression.
    pub optional_if: Option<String>,
    /// How many bytes to read, as an expression.
    pub size: Option<String>,
    /// Whether the field runs to the end of the stream.
    pub size_eos: bool,
    pub process: Option<Process>,
    pub attribute_enum: Option<Enum>,
    pub encoding: Option<String>,
    pub pad_right: Option<u8>,
    /// The byte that ends a terminated string.
    pub terminator: Option<u8>,
    pub consume: bool,
    pub include_terminator: bool,
    /// Whether reading past the end of the stream is an error.
    pub eos_error: bool,
    pub pos: Option<String>,
    pub io: Option<String>,
    pub value: Option<String>,
}

/// How an attribute repeats.
#[derive(Debug, Clone, Copy, PartialEq, Eq, Structural)]
pub enum Repeat {
    /// Until the end of the stream.
    Eos,
    /// As many times as `repeat-expr` says.
    Expr,
    /// Until `repeat-until` holds.
    Until,
}

/// The transformations that `process` names.
#[derive(Debug, Clone, Copy, PartialEq, Eq, Structural)]
pub enum ProcessType {
    Zlib,
    Xor,
    Rol,
    Ror,
}

/// A transformation of raw bytes, with its parameter as written.
#[derive(Debug)]
pub struct Process {
    pub process_type: ProcessType,
    pub parameter: String,
}

impl Attribute {
    /// An attribute with every field given.
    pub fn new(
        id: Option<String>,
        doc: Option<Doc>,
        doc_ref: Option<DocRef>,
        contents: Option<Vec<u8>>,
        seq_type: Option<Type>,
        repeat: Option<Repeat>,
        repeat_expr: Option<String>,
        repeat_until: Option<String>,
        optional_if: Option<String>,
        size: Option<String>,
        size_eos: bool,
        process: Option<Process>,
        attribute_enum: Option<Enum>,
        encoding: Option<String>,
        pad_right: Option<u8>,
        terminator: Option<u8>,
        consume: bool,
        include_terminator: bool,
        eos_error: bool,
        pos: Option<String>,
        io: Option<String>,
        value: Option<String>,
    ) -> (r: Self)
        ensures
            r == (Attribute {
                id,
                doc,
                doc_ref,
                contents,
                seq_type,
                repeat,
                repeat_expr,
                repeat_until,
                optional_if,
                size,
                size_eos,
                process,
                attribute_enum,
                encoding,
                pad_right,
                terminator,
                consume,
                include_terminator,
                eos_error,
                pos,
                io,
                value,
            }),
    {
        Attribute {
            id,
            doc,
            doc_ref,
            contents,
            seq_type,
            repeat,
            repeat_expr,
            repeat_until,
            optional_if,
            size,
            size_eos,
            process,
            attribute_enum,
            encoding,
            pad_right,
            terminator,
            consume,
            include_terminator,
            eos_error,
            pos,
            io,
            value,
        }
    }

    /// An attribute with only an id, and the documented defaults: consumed, not
    /// included, an error at the end of the stream.
    pub fn with_id(id: Option<String>) -> (r: Self)
        ensures
            r == (Attribute {
                id,
                doc: None,
                doc_ref: None,
                contents: None,
                seq_type: None,
                repeat: None,
                repeat_expr: None,
                repeat_until: None,
                optional_if: None,
                size: None,
                size_eos: false,
                process: None,
                attribute_enum: None,
                encoding: None,
                pad_right: None,
                terminator: None,
                consume: true,
                include_terminator: false,
                eos_error: true,
                pos: None,
                io: None,
                value: None,
            }),
    {
        Attribute::new(
            id,
            None,
            None,
            None,
            None,
            None,
            None,
            None,
            None,
            None,
            false,
            None,
            None,
            None,
            None,
            None,
            true,
            false,
            true,
            None,
            None,
            None,
        )
    }

    pub fn set_contents(&mut self, contents: Vec<u8>)
        ensures
            *final(self) == (Attribute { contents: Some(contents), ..*old(self) }),
    {
        self.contents = Some(contents);
    }

    pub fn set_seq_type(&mut self, seq_type: Type)
        ensures
            *final(self) == (Attribute { seq_type: Some(seq_type), ..*old(self) }),
    {
        self.seq_type = Some(seq_type);
    }

    pub fn set_repeat(&mut self, repeat: Repeat)
        ensures
            *final(self) == (Attribute { repeat: Some(repeat), ..*old(self) }),
    {
        self.repeat = Some(repeat);
    }

    pub fn set_repeat_expr(&mut self, repeat_expr: String)
        ensures
            *final(self) == (Attribute { repeat_expr: Some(repeat_expr), ..*old(self) }),
    {
        self.repeat_expr = Some(repeat_expr);
    }

    pub fn set_repeat_until(&mut self, repeat_until: String)
        ensures
            *final(self) == (Attribute { repeat_until: Some(repeat_until), ..*old(self) }),
    {
        self.repeat_until = Some(repeat_until);
    }

    pub fn set_optional_if(&mut self, optional_if: String)
        ensures
            *final(self) == (Attribute { optional_if: Some(optional_if), ..*old(self) }),
    {
        self.optional_if = Some(optional_if);
    }

    pub fn set_size(&mut self, size: String)
        ensures
            *final(self) == (Attribute { size: Some(size), ..*old(self) }),
    {
        self.size = Some(size);
    }

    pub fn set_size_eos(&mut self, size_eos: bool)
        ensures
            *final(self) == (Attribute { size_eos, ..*old(self) }),
    {
        self.size_eos = size_eos;
    }

    pub fn set_process(&mut self, process: Process)
        ensures
            *final(self) == (Attribute { process: Some(process), ..*old(self) }),
    {
        self.process = Some(process);
    }

    pub fn set_attribute_enum(&mut self, attribute_enum: Enum)
        ensures
            *final(self) == (Attribute { attribute_enum: Some(attribute_enum), ..*old(self) }),
    {
        self.attribute_enum = Some(attribute_enum);
    }

    pub fn set_encoding(&mut self, encoding: String)
        ensures
            *final(self) == (Attribute { encoding: Some(encoding), ..*old(self) }),
    {
        self.encoding = Some(encoding);
    }

    pub fn set_pad_right(&mut self, pad_right: u8)
        ensures
            *final(self) == (Attribute { pad_right: Some(pad_right), ..*old(self) }),
    {
        self.pad_right = Some(pad_right);
    }

    pub fn set_terminator(&mut self, terminator: u8)
        ensures
            *final(self) == (Attribute { terminator: Some(terminator), ..*old(self) }),
    {
        self.terminator = Some(terminator);
    }

    pub fn set_consume(&mut self, consume: bool)
        ensures
            *final(self) == (Attribute { consume, ..*old(self) }),
    {
        self.consume = consume;
    }

    pub fn set_include(&mut self, include_terminator: bool)
        ensures
            *final(self) == (Attribute { include_terminator, ..*old(self) }),
    {
        self.include_terminator = include_terminator;
    }

    pub fn set_eos_error(&mut self, eos_error: bool)
        ensures
            *final(self) == (Attribute { eos_error, ..*old(self) }),
    {
        self.eos_error = eos_error;
    }

    pub fn set_pos(&mut self, pos: String)
        ensures
            *final(self) == (Attribute { pos: Some(pos), ..*old(self) }),
    {
        self.pos = Some(pos);
    }

    pub fn set_io(&mut self, io: String)
        ensures
            *final(self) == (Attribute { io: Some(io), ..*old(self) }),
    {
        self.io = Some(io);
    }

    pub fn set_value(&mut self, value: String)
        ensures
            *final(self) == (Attribute { value: Some(value), ..*old(self) }),
    {
        self.value = Some(value);
    }
}

} // verus!
