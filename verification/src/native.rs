use vstd::prelude::*;

verus! {

/// A byte string has a native form exactly when it holds no NUL byte.
pub open spec fn representable(s: Seq<u8>) -> bool {
    forall|i: int| 0 <= i < s.len() ==> s[i] != 0u8
}

/// `i` is the index of the first NUL byte of `s`.
pub open spec fn first_nul_at(s: Seq<u8>, i: int) -> bool {
    &&& 0 <= i < s.len()
    &&& s[i] == 0u8
    &&& forall|j: int| 0 <= j < i ==> s[j] != 0u8
}

/// The only failure of this crate: caller-supplied text holds a NUL byte and
/// so has no native form. `position` is the index of its first NUL byte.
#[derive(Debug, Clone, Copy, PartialEq, Eq, Structural)]
pub struct StringConversionError {
    pub position: usize,
}

/// A platform-native string: bytes without any NUL among them (the
/// terminator is implied and not stored).
#[derive(Debug)]
pub struct NativeString {
    bytes: Vec<u8>,
}

impl NativeString {
    /// The bytes of the string.
    pub closed spec fn view(&self) -> Seq<u8> {
        self.bytes@
    }

    /// No stored byte is NUL.
    pub open spec fn wf(&self) -> bool {
        representable(self@)
    }

    /// Converts caller-supplied bytes. Succeeds exactly when no byte is NUL,
    /// and otherwise reports where the first NUL stands.
    pub fn from_bytes(s: &[u8]) -> (ret: Result<NativeString, StringConversionError>)
        ensures
            ret is Ok <==> representable(s@),
            match ret {
                Ok(n) => n.wf() && n@ == s@,
                Err(e) => first_nul_at(s@, e.position as int),
            },
    {
        let mut bytes: Vec<u8> = Vec::new();
        let mut i: usize = 0;
        while i < s.len()
            invariant
                0 <= i <= s.len(),
                bytes@ == s@.take(i as int),
                forall|j: int| 0 <= j < i ==> s@[j] != 0u8,
            decreases s.len() - i,
        {
            let b: u8 = s[i];
            if b == 0 {
                return Err(StringConversionError { position: i });
            }
            bytes.push(b);
            i += 1;
        }
        Ok(NativeString { bytes })
    }

    /// The stored bytes.
    pub fn as_bytes(&self) -> (ret: &[u8])
        ensures
            ret@ == self@,
    {
        self.bytes.as_slice()
    }

    /// Gives the stored bytes away.
    pub fn into_bytes(self) -> (ret: Vec<u8>)
        ensures
            ret@ == self@,
    {
        self.bytes
    }

    /// The number of stored bytes.
    pub fn len(&self) -> (ret: usize)
        ensures
            ret == self@.len(),
    {
        self.bytes.len()
    }

    /// A copy of this string.
    pub fn duplicate(&self) -> (ret: NativeString)
        ensures
            ret@ == self@,
    {
        NativeString { bytes: vstd::slice::slice_to_vec(self.bytes.as_slice()) }
    }
}

} // verus!
