//! The memory map: RAM, the character port, and the cartridge ROM with its
//! write lock, behind one 16-bit address space.

use vstd::prelude::*;

verus! {

/// Number of bytes of RAM, mapped from address 0.
pub const RAM_SIZE: usize = 0x3000;

/// Address of the single-byte character port.
pub const PORT_ADDRESS: u16 = 0x7F00;

/// First address of the cartridge ROM.
pub const ROM_START: u16 = 0x8000;

/// Number of bytes of cartridge ROM.
pub const ROM_SIZE: usize = 0x8000;

/// Address of the word that an interrupt request stores its argument in.
pub const INTERRUPT_PORT: u16 = 0xFFFC;

/// Address of the word that holds the program counter loaded on reset and on
/// interrupt entry.
pub const RESET_VECTOR: u16 = 0xFFFE;

/// The byte that the character port yields once its input is used up.
pub const END_OF_INPUT: u8 = 0xFF;

/// The little-endian word made of two bytes.
pub open spec fn word_of(low: u8, high: u8) -> u16 {
    (low as int + 256 * (high as int)) as u16
}

/// The low byte of a word.
pub open spec fn low_byte(value: u16) -> u8 {
    (value % 256) as u8
}

/// The high byte of a word.
pub open spec fn high_byte(value: u16) -> u8 {
    (value / 256) as u8
}

/// The little-endian word made of two bytes.
pub fn make_word(low: u8, high: u8) -> (value: u16)
    ensures
        value == word_of(low, high),
        low_byte(value) == low,
        high_byte(value) == high,
{
    let value: u16 = low as u16 + 256 * (high as u16);
    value
}

/// The low and the high byte of a word.
pub fn split_word(value: u16) -> (bytes: (u8, u8))
    ensures
        bytes.0 == low_byte(value),
        bytes.1 == high_byte(value),
        word_of(bytes.0, bytes.1) == value,
{
    ((value % 256) as u8, (value / 256) as u8)
}

/// A segment of byte-addressed storage.
pub trait Memory {
    /// The bytes that the segment holds.
    spec fn contents(&self) -> Seq<u8>;

    /// Whether writes change the segment.
    spec fn writable(&self) -> bool;

    /// Whether an address lies in the segment.
    fn contains(&self, address: usize) -> (inside: bool)
        ensures
            inside == (address < self.contents().len()),
    ;

    /// The byte at an address of the segment.
    fn read(&self, address: usize) -> (value: u8)
        requires
            address < self.contents().len(),
        ensures
            value == self.contents()[address as int],
    ;

    /// Stores a byte at an address of the segment. A segment that is not
    /// writable stays as it is.
    fn write(&mut self, address: usize, value: u8)
        requires
            address < old(self).contents().len(),
        ensures
            final(self).writable() == old(self).writable(),
            final(self).contents() == if old(self).writable() {
                old(self).contents().update(address as int, value)
            } else {
                old(self).contents()
            },
    ;

    /// The little-endian word at an address of the segment.
    fn read_word(&self, address: usize) -> (value: u16)
        requires
            address + 1 < self.contents().len() <= usize::MAX,
        ensures
            value == word_of(self.contents()[address as int], self.contents()[address + 1]),
    {
        let low = self.read(address);
        let high = self.read(address + 1);
        make_word(low, high)
    }

    /// Stores a word at an address of the segment, low byte first.
    fn write_word(&mut self, address: usize, value: u16)
        requires
            address + 1 < old(self).contents().len() <= usize::MAX,
        ensures
            final(self).writable() == old(self).writable(),
            final(self).contents() == if old(self).writable() {
                old(self).contents().update(address as int, low_byte(value)).update(
                    address + 1,
                    high_byte(value),
                )
            } else {
                old(self).contents()
            },
    {
        let (low, high) = split_word(value);
        self.write(address, low);
        self.write(address + 1, high);
    }

    /// Copies `data` into the segment from an address on. A segment that is
    /// not writable stays as it is.
    fn load(&mut self, address: usize, data: &[u8])
        requires
            address + data@.len() <= old(self).contents().len() <= usize::MAX,
        ensures
            final(self).writable() == old(self).writable(),
            final(self).contents() == if old(self).writable() {
                loaded(old(self).contents(), address as int, data@)
            } else {
                old(self).contents()
            },
    {
        let mut i: usize = 0;
        while i < data.len()
            invariant
                i <= data@.len(),
                address + data@.len() <= old(self).contents().len() <= usize::MAX,
                self.writable() == old(self).writable(),
                self.contents().len() == old(self).contents().len(),
                self.contents() == if old(self).writable() {
                    loaded(old(self).contents(), address as int, data@.subrange(0, i as int))
                } else {
                    old(self).contents()
                },
            decreases data@.len() - i,
        {
            self.write(address + i, data[i]);
            i = i + 1;
            proof {
                if old(self).writable() {
                    assert(self.contents() =~= loaded(
                        old(self).contents(),
                        address as int,
                        data@.subrange(0, i as int),
                    ));
                }
            }
        }
        assert(data@.subrange(0, data@.len() as int) =~= data@);
    }

    /// The `length` bytes of the segment from an address on.
    fn dump(&self, address: usize, length: usize) -> (bytes: Vec<u8>)
        requires
            address + length <= self.contents().len() <= usize::MAX,
        ensures
            bytes@ == self.contents().subrange(address as int, address + length),
    {
        let mut bytes: Vec<u8> = Vec::new();
        let mut i: usize = 0;
        while i < length
            invariant
                i <= length,
                address + length <= self.contents().len() <= usize::MAX,
                bytes@ == self.contents().subrange(address as int, address + i),
            decreases length - i,
        {
            bytes.push(self.read(address + i));
            i = i + 1;
            assert(bytes@ =~= self.contents().subrange(address as int, address + i));
        }
        bytes
    }
}

/// A byte sequence with `data` copied over it from position `at` on.
pub open spec fn loaded(bytes: Seq<u8>, at: int, data: Seq<u8>) -> Seq<u8> {
    Seq::new(
        bytes.len(),
        |i: int|
            if at <= i < at + data.len() {
                data[i - at]
            } else {
                bytes[i]
            },
    )
}

/// RAM: a writable segment, zeroed when created.
#[derive(Debug, Clone, PartialEq, Eq, Hash)]
pub struct RAM {
    pub data: Vec<u8>,
}

impl RAM {
    /// Whether the segment has its full size.
    pub open spec fn wf(&self) -> bool {
        self.data@.len() == RAM_SIZE
    }

    /// A RAM segment of `RAM_SIZE` zero bytes.
    pub fn new() -> (ram: RAM)
        ensures
            ram.wf(),
            ram.data@ == Seq::new(RAM_SIZE as nat, |i: int| 0u8),
    {
        let data: Vec<u8> = vec![0u8; RAM_SIZE];
        assert(data@ =~= Seq::new(RAM_SIZE as nat, |i: int| 0u8));
        RAM { data }
    }
}

impl Memory for RAM {
    open spec fn contents(&self) -> Seq<u8> {
        self.data@
    }

    open spec fn writable(&self) -> bool {
        true
    }

    fn contains(&self, address: usize) -> (inside: bool) {
        address < self.data.len()
    }

    fn read(&self, address: usize) -> (value: u8) {
        self.data[address]
    }

    fn write(&mut self, address: usize, value: u8) {
        self.data[address] = value;
    }
}

/// The cartridge ROM: a segment that takes writes only while it is unlocked.
#[derive(Debug, Clone, PartialEq, Eq, Hash)]
pub struct Cartridge {
    pub data: Vec<u8>,
    pub locked: bool,
}

impl Cartridge {
    /// Whether the segment has its full size.
    pub open spec fn wf(&self) -> bool {
        self.data@.len() == ROM_SIZE
    }

    /// An unlocked cartridge of `ROM_SIZE` zero bytes.
    pub fn new() -> (rom: Cartridge)
        ensures
            rom.wf(),
            !rom.locked,
            rom.data@ == Seq::new(ROM_SIZE as nat, |i: int| 0u8),
    {
        let data: Vec<u8> = vec![0u8; ROM_SIZE];
        assert(data@ =~= Seq::new(ROM_SIZE as nat, |i: int| 0u8));
        Cartridge { data, locked: false }
    }

    /// A locked cartridge that holds a binary image from its first byte on,
    /// and zero bytes after the image's end.
    pub fn from_image(image: &[u8]) -> (rom: Cartridge)
        requires
            image@.len() <= ROM_SIZE,
        ensures
            rom.wf(),
            rom.locked,
            rom.data@ == loaded(Seq::new(ROM_SIZE as nat, |i: int| 0u8), 0, image@),
    {
        let mut rom = Cartridge::new();
        rom.load(0, image);
        rom.locked = true;
        rom
    }

    /// Lets writes through to the cartridge.
    pub fn unlock(&mut self)
        ensures
            !final(self).locked,
            final(self).data == old(self).data,
    {
        self.locked = false;
    }

    /// Makes the cartridge ignore writes.
    pub fn lock(&mut self)
        ensures
            final(self).locked,
            final(self).data == old(self).data,
    {
        self.locked = true;
    }
}

impl Default for Cartridge {
    /// An unlocked cartridge of `ROM_SIZE` zero bytes.
    fn default() -> (rom: Cartridge)
        ensures
            rom.wf(),
            !rom.locked,
            rom.data@ == Seq::new(ROM_SIZE as nat, |i: int| 0u8),
    {
        Cartridge::new()
    }
}

impl Memory for Cartridge {
    open spec fn contents(&self) -> Seq<u8> {
        self.data@
    }

    open spec fn writable(&self) -> bool {
        !self.locked
    }

    fn contains(&self, address: usize) -> (inside: bool) {
        address < self.data.len()
    }

    fn read(&self, address: usize) -> (value: u8) {
        self.data[address]
    }

    fn write(&mut self, address: usize, value: u8) {
        if !self.locked {
            self.data[address] = value;
        }
    }
}

/// The character port: bytes waiting to be read by the program, and the bytes
/// that the program has written.
#[derive(Debug, Clone, PartialEq, Eq, Hash)]
pub struct Port {
    /// Every byte supplied as input so far.
    pub input: Vec<u8>,
    /// How many bytes of `input` the program has read.
    pub cursor: usize,
    /// Every byte the program has written and nobody has taken yet.
    pub output: Vec<u8>,
}

impl Port {
    /// Whether the read position lies within the input.
    pub open spec fn wf(&self) -> bool {
        self.cursor <= self.input@.len()
    }

    /// The input that the program has not read yet.
    pub open spec fn pending(&self) -> Seq<u8> {
        self.input@.subrange(self.cursor as int, self.input@.len() as int)
    }

    /// A port that has been supplied no input, has had nothing read from it,
    /// and holds no output.
    pub fn new() -> (port: Port)
        ensures
            port.wf(),
            port.input@ == Seq::<u8>::empty(),
            port.cursor == 0,
            port.pending() == Seq::<u8>::empty(),
            port.output@ == Seq::<u8>::empty(),
    {
        let port = Port { input: Vec::new(), cursor: 0, output: Vec::new() };
        assert(port.pending() =~= Seq::<u8>::empty());
        port
    }
}

/// An access to an address that no region of the memory map holds.
#[derive(Debug, Clone, Copy, PartialEq, Eq, Structural, Hash)]
pub struct AddressError {
    pub address: u16,
}

/// What the memory map holds, as plain values.
pub ghost struct MemoryMap {
    /// The bytes of RAM, from address 0.
    pub ram: Seq<u8>,
    /// The bytes of the cartridge, from address `ROM_START`.
    pub rom: Seq<u8>,
    /// Whether the cartridge ignores writes.
    pub locked: bool,
    /// The port's input that the program has not read yet.
    pub input: Seq<u8>,
    /// The bytes that the program has written to the port.
    pub output: Seq<u8>,
    /// The addresses of the writes that the locked cartridge has ignored.
    pub ignored: Seq<u16>,
}

/// Whether an address belongs to RAM, to the port or to the cartridge.
pub open spec fn is_mapped(address: u16) -> bool {
    address < RAM_SIZE || address == PORT_ADDRESS || address >= ROM_START
}

/// The address that follows, wrapping from 0xFFFF to 0.
pub open spec fn next_address(address: u16) -> u16 {
    if address == 0xFFFF {
        0
    } else {
        (address + 1) as u16
    }
}

/// The first of the two addresses of a word that is not mapped, if any.
pub open spec fn word_fault(address: u16) -> Option<AddressError> {
    if !is_mapped(address) {
        Some(AddressError { address })
    } else if !is_mapped(next_address(address)) {
        Some(AddressError { address: next_address(address) })
    } else {
        None
    }
}

impl MemoryMap {
    /// Whether RAM and cartridge have their full sizes.
    pub open spec fn wf(self) -> bool {
        &&& self.ram.len() == RAM_SIZE
        &&& self.rom.len() == ROM_SIZE
    }

    /// The byte that a read of a mapped address yields, without the read's
    /// effect on the port.
    pub open spec fn byte_at(self, address: u16) -> u8 {
        if address < RAM_SIZE {
            self.ram[address as int]
        } else if address == PORT_ADDRESS {
            if self.input.len() > 0 {
                self.input[0]
            } else {
                END_OF_INPUT
            }
        } else {
            self.rom[address - ROM_START]
        }
    }

    /// The memory map after a read of a mapped address: a read of the port
    /// uses up one byte of input, any other read changes nothing.
    pub open spec fn after_read(self, address: u16) -> MemoryMap {
        if address == PORT_ADDRESS && self.input.len() > 0 {
            MemoryMap { input: self.input.drop_first(), ..self }
        } else {
            self
        }
    }

    /// The memory map after a write to a mapped address: RAM takes the byte,
    /// the port appends it to its output, the cartridge takes it if unlocked
    /// and otherwise ignores it and notes the address.
    pub open spec fn after_write(self, address: u16, value: u8) -> MemoryMap {
        if address < RAM_SIZE {
            MemoryMap { ram: self.ram.update(address as int, value), ..self }
        } else if address == PORT_ADDRESS {
            MemoryMap { output: self.output.push(value), ..self }
        } else if self.locked {
            MemoryMap { ignored: self.ignored.push(address), ..self }
        } else {
            MemoryMap { rom: self.rom.update(address - ROM_START, value), ..self }
        }
    }

    /// Reads a byte: the value and the memory map afterwards, or the address
    /// if it is not mapped.
    pub open spec fn read_byte(self, address: u16) -> Result<(u8, MemoryMap), AddressError> {
        if is_mapped(address) {
            Ok((self.byte_at(address), self.after_read(address)))
        } else {
            Err(AddressError { address })
        }
    }

    /// Reads a little-endian word, low byte first. Both addresses must be
    /// mapped, else nothing is read and the first unmapped one is reported.
    pub open spec fn read_word(self, address: u16) -> Result<(u16, MemoryMap), AddressError> {
        let second = next_address(address);
        match word_fault(address) {
            Some(e) => Err(e),
            None => {
                let low = self.byte_at(address);
                let then = self.after_read(address);
                Ok((word_of(low, then.byte_at(second)), then.after_read(second)))
            },
        }
    }

    /// The byte that a read of an address would yield, without the read's
    /// effect on the port; the address if it is not mapped.
    pub open spec fn peek_byte(self, address: u16) -> Result<u8, AddressError> {
        if is_mapped(address) {
            Ok(self.byte_at(address))
        } else {
            Err(AddressError { address })
        }
    }

    /// The `count` bytes that reads from an address on would yield, without
    /// their effect on the port; addresses wrap at the top of the address
    /// space. The first unmapped address is reported.
    pub open spec fn peek_bytes(self, address: u16, count: nat) -> Result<Seq<u8>, AddressError>
        decreases count,
    {
        if count == 0 {
            Ok(Seq::<u8>::empty())
        } else {
            match self.peek_bytes(address, (count - 1) as nat) {
                Ok(bytes) => match self.peek_byte(((address + count - 1) % 0x10000) as u16) {
                    Ok(byte) => Ok(bytes.push(byte)),
                    Err(e) => Err(e),
                },
                Err(e) => Err(e),
            }
        }
    }

    /// Writes a byte: the memory map afterwards, or the address if it is not
    /// mapped.
    pub open spec fn write_byte(self, address: u16, value: u8) -> Result<MemoryMap, AddressError> {
        if is_mapped(address) {
            Ok(self.after_write(address, value))
        } else {
            Err(AddressError { address })
        }
    }

    /// Writes a little-endian word, low byte first. Both addresses must be
    /// mapped, else nothing is written and the first unmapped one is reported.
    pub open spec fn write_word(self, address: u16, value: u16) -> Result<MemoryMap, AddressError> {
        let second = next_address(address);
        match word_fault(address) {
            Some(e) => Err(e),
            None => Ok(
                self.after_write(address, low_byte(value)).after_write(second, high_byte(value)),
            ),
        }
    }

    /// The memory map with a word stored in the cartridge whether or not it is
    /// locked.
    pub open spec fn with_rom_word(self, address: u16, value: u16) -> MemoryMap
        recommends
            ROM_START <= address < 0xFFFF,
    {
        MemoryMap {
            rom: self.rom.update(address - ROM_START, low_byte(value)).update(
                address - ROM_START + 1,
                high_byte(value),
            ),
            ..self
        }
    }
}

/// Once a run of peeks has met an unmapped address, a longer run meets the
/// same one.
pub proof fn lemma_peek_bytes_fault(map: MemoryMap, address: u16, short: nat, long: nat)
    requires
        short <= long,
        map.peek_bytes(address, short) is Err,
    ensures
        map.peek_bytes(address, long) == map.peek_bytes(address, short),
    decreases long,
{
    if short < long {
        lemma_peek_bytes_fault(map, address, short, (long - 1) as nat);
    }
}

/// A word access never touches the port: the addresses next to the port are
/// not mapped, so a word whose two addresses are mapped lies in RAM or in
/// the cartridge.
pub proof fn lemma_word_avoids_port(address: u16)
    requires
        word_fault(address) is None,
    ensures
        address != PORT_ADDRESS,
        next_address(address) != PORT_ADDRESS,
{
}

/// The memory management unit: dispatches each access to the region that
/// holds the address.
#[derive(Debug, Clone, PartialEq, Eq, Hash)]
pub struct Mmu {
    pub ram: RAM,
    pub rom: Cartridge,
    pub port: Port,
    /// The addresses of the writes that the locked cartridge has ignored
    /// and nobody has taken yet.
    pub ignored: Vec<u16>,
}

impl View for Mmu {
    type V = MemoryMap;

    open spec fn view(&self) -> MemoryMap {
        MemoryMap {
            ram: self.ram.data@,
            rom: self.rom.data@,
            locked: self.rom.locked,
            input: self.port.pending(),
            output: self.port.output@,
            ignored: self.ignored@,
        }
    }
}

impl Mmu {
    /// Whether every region is well formed.
    pub open spec fn wf(&self) -> bool {
        &&& self.ram.wf()
        &&& self.rom.wf()
        &&& self.port.wf()
    }

    /// A memory map over the given RAM and cartridge, with an idle port.
    pub fn new(ram: RAM, rom: Cartridge) -> (mmu: Mmu)
        requires
            ram.wf(),
            rom.wf(),
        ensures
            mmu.wf(),
            mmu.ram == ram,
            mmu.rom == rom,
            mmu@.input == Seq::<u8>::empty(),
            mmu@.output == Seq::<u8>::empty(),
            mmu@.ignored == Seq::<u16>::empty(),
    {
        Mmu { ram, rom, port: Port::new(), ignored: Vec::new() }
    }

    /// Whether an address belongs to RAM, to the port or to the cartridge.
    pub fn is_mapped(address: u16) -> (mapped: bool)
        ensures
            mapped == is_mapped(address),
    {
        (address as usize) < RAM_SIZE || address == PORT_ADDRESS || address >= ROM_START
    }

    /// Whether both addresses of a word are mapped; if not, the first that
    /// is not.
    pub fn check_word(pos: u16) -> (res: Result<(), AddressError>)
        ensures
            match word_fault(pos) {
                Some(e) => res == Err::<(), AddressError>(e),
                None => res is Ok,
            },
    {
        let second = pos.wrapping_add(1);
        if !Mmu::is_mapped(pos) {
            Err(AddressError { address: pos })
        } else if !Mmu::is_mapped(second) {
            Err(AddressError { address: second })
        } else {
            Ok(())
        }
    }

    /// The byte that a read of an address would yield, without using up port
    /// input: the port shows its next input byte, or `END_OF_INPUT` when none
    /// is left. An unmapped address is an error.
    pub fn peek_byte(&self, pos: u16) -> (res: Result<u8, AddressError>)
        requires
            self.wf(),
        ensures
            res == self@.peek_byte(pos),
    {
        if (pos as usize) < RAM_SIZE {
            Ok(self.ram.read(pos as usize))
        } else if pos == PORT_ADDRESS {
            if self.port.cursor < self.port.input.len() {
                Ok(self.port.input[self.port.cursor])
            } else {
                Ok(END_OF_INPUT)
            }
        } else if pos >= ROM_START {
            Ok(self.rom.read((pos - ROM_START) as usize))
        } else {
            Err(AddressError { address: pos })
        }
    }

    /// The `count` bytes that reads from an address on would yield, without
    /// using up port input; addresses wrap at the top of the address space.
    /// The first unmapped address is an error.
    pub fn peek_bytes(&self, pos: u16, count: u8) -> (res: Result<Vec<u8>, AddressError>)
        requires
            self.wf(),
        ensures
            match self@.peek_bytes(pos, count as nat) {
                Ok(bytes) => res is Ok && res.unwrap()@ == bytes && bytes.len() == count,
                Err(e) => res == Err::<Vec<u8>, AddressError>(e),
            },
    {
        let mut bytes: Vec<u8> = Vec::new();
        let mut i: u8 = 0;
        while i < count
            invariant
                self.wf(),
                i <= count,
                bytes@.len() == i,
                self@.peek_bytes(pos, i as nat) == Ok::<Seq<u8>, AddressError>(bytes@),
            decreases count - i,
        {
            let at: u16 = ((pos as u32 + i as u32) % 0x10000) as u16;
            match self.peek_byte(at) {
                Ok(byte) => {
                    bytes.push(byte);
                },
                Err(e) => {
                    proof {
                        lemma_peek_bytes_fault(self@, pos, (i + 1) as nat, count as nat);
                    }
                    return Err(e);
                },
            }
            i = i + 1;
        }
        Ok(bytes)
    }

    /// Reads the byte at an address. RAM and cartridge yield what they hold;
    /// the port yields its next input byte and uses it up, or `END_OF_INPUT`
    /// when none is left. An unmapped address is an error and changes nothing.
    pub fn read_byte(&mut self, pos: u16) -> (res: Result<u8, AddressError>)
        requires
            old(self).wf(),
        ensures
            final(self).wf(),
            match old(self)@.read_byte(pos) {
                Ok((value, after)) => res == Ok::<u8, AddressError>(value) && final(self)@ == after,
                Err(e) => res == Err::<u8, AddressError>(e) && *final(self) == *old(self),
            },
    {
        if (pos as usize) < RAM_SIZE {
            Ok(self.ram.read(pos as usize))
        } else if pos == PORT_ADDRESS {
            if self.port.cursor < self.port.input.len() {
                let value = self.port.input[self.port.cursor];
                self.port.cursor = self.port.cursor + 1;
                assert(final(self).port.pending() =~= old(self).port.pending().drop_first());
                Ok(value)
            } else {
                Ok(END_OF_INPUT)
            }
        } else if pos >= ROM_START {
            Ok(self.rom.read((pos - ROM_START) as usize))
        } else {
            Err(AddressError { address: pos })
        }
    }

    /// Reads the little-endian word at an address, low byte first; the second
    /// byte comes from the next address, wrapping at the top of the address
    /// space. If either address is unmapped nothing is read.
    pub fn read_word(&mut self, pos: u16) -> (res: Result<u16, AddressError>)
        requires
            old(self).wf(),
        ensures
            final(self).wf(),
            match old(self)@.read_word(pos) {
                Ok((value, after)) => res == Ok::<u16, AddressError>(value) && final(self)@
                    == after,
                Err(e) => res == Err::<u16, AddressError>(e) && *final(self) == *old(self),
            },
    {
        let second = pos.wrapping_add(1);
        if !Mmu::is_mapped(pos) {
            return Err(AddressError { address: pos });
        }
        if !Mmu::is_mapped(second) {
            return Err(AddressError { address: second });
        }
        let low = match self.read_byte(pos) {
            Ok(value) => value,
            Err(e) => {
                return Err(e);
            },
        };
        match self.read_byte(second) {
            Ok(high) => Ok(make_word(low, high)),
            Err(e) => Err(e),
        }
    }

    /// Writes a byte at an address. RAM stores it, the port appends it to its
    /// output, the cartridge stores it if unlocked; a locked cartridge
    /// ignores it, which is no error, and the address is noted. An unmapped
    /// address is an error and changes nothing.
    pub fn write_byte(&mut self, pos: u16, value: u8) -> (res: Result<(), AddressError>)
        requires
            old(self).wf(),
        ensures
            final(self).wf(),
            match old(self)@.write_byte(pos, value) {
                Ok(after) => res is Ok && final(self)@ == after,
                Err(e) => res == Err::<(), AddressError>(e) && *final(self) == *old(self),
            },
    {
        if (pos as usize) < RAM_SIZE {
            self.ram.write(pos as usize, value);
            Ok(())
        } else if pos == PORT_ADDRESS {
            self.port.output.push(value);
            Ok(())
        } else if pos >= ROM_START {
            if self.rom.locked {
                self.ignored.push(pos);
            } else {
                self.rom.write((pos - ROM_START) as usize, value);
            }
            Ok(())
        } else {
            Err(AddressError { address: pos })
        }
    }

    /// Writes a little-endian word at an address, low byte first; the second
    /// byte goes to the next address, wrapping at the top of the address
    /// space. If either address is unmapped nothing is written.
    pub fn write_word(&mut self, pos: u16, value: u16) -> (res: Result<(), AddressError>)
        requires
            old(self).wf(),
        ensures
            final(self).wf(),
            match old(self)@.write_word(pos, value) {
                Ok(after) => res is Ok && final(self)@ == after,
                Err(e) => res == Err::<(), AddressError>(e) && *final(self) == *old(self),
            },
    {
        let second = pos.wrapping_add(1);
        if !Mmu::is_mapped(pos) {
            return Err(AddressError { address: pos });
        }
        if !Mmu::is_mapped(second) {
            return Err(AddressError { address: second });
        }
        let (low, high) = split_word(value);
        match self.write_byte(pos, low) {
            Ok(()) => {},
            Err(e) => {
                return Err(e);
            },
        }
        self.write_byte(second, high)
    }

    /// Stores a word in the cartridge whether or not it is locked.
    pub fn write_rom_word(&mut self, pos: u16, value: u16)
        requires
            old(self).wf(),
            ROM_START <= pos < 0xFFFF,
        ensures
            final(self).wf(),
            final(self)@ == old(self)@.with_rom_word(pos, value),
    {
        let (low, high) = split_word(value);
        let at: usize = (pos - ROM_START) as usize;
        self.rom.data[at] = low;
        self.rom.data[at + 1] = high;
    }

    /// Appends bytes to the input that the program can read from the port.
    pub fn send_input(&mut self, bytes: &[u8])
        requires
            old(self).wf(),
        ensures
            final(self).wf(),
            final(self)@ == (MemoryMap { input: old(self)@.input + bytes@, ..old(self)@ }),
    {
        let mut i: usize = 0;
        while i < bytes.len()
            invariant
                i <= bytes@.len(),
                self.wf(),
                self.ram == old(self).ram,
                self.rom == old(self).rom,
                self.ignored == old(self).ignored,
                self.port.output == old(self).port.output,
                self.port.cursor == old(self).port.cursor,
                self.port.input@ == old(self).port.input@ + bytes@.subrange(0, i as int),
            decreases bytes@.len() - i,
        {
            self.port.input.push(bytes[i]);
            i = i + 1;
            assert(self.port.input@ =~= old(self).port.input@ + bytes@.subrange(0, i as int));
        }
        assert(bytes@.subrange(0, bytes@.len() as int) =~= bytes@);
        assert(self.port.pending() =~= old(self).port.pending() + bytes@);
    }

    /// Hands out the bytes that the program has written to the port and
    /// leaves the port's output empty.
    pub fn take_output(&mut self) -> (bytes: Vec<u8>)
        requires
            old(self).wf(),
        ensures
            final(self).wf(),
            bytes@ == old(self)@.output,
            final(self)@ == (MemoryMap { output: Seq::<u8>::empty(), ..old(self)@ }),
    {
        let mut bytes: Vec<u8> = Vec::new();
        bytes.append(&mut self.port.output);
        bytes
    }

    /// Hands out the addresses of the writes that the locked cartridge has
    /// ignored, in the order they came, and forgets them.
    pub fn take_ignored(&mut self) -> (addresses: Vec<u16>)
        requires
            old(self).wf(),
        ensures
            final(self).wf(),
            addresses@ == old(self)@.ignored,
            final(self)@ == (MemoryMap { ignored: Seq::<u16>::empty(), ..old(self)@ }),
    {
        let mut addresses: Vec<u16> = Vec::new();
        addresses.append(&mut self.ignored);
        addresses
    }
}

} // verus!
